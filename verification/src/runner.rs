//! Running a sequence: handlers in order, containers over page elements,
//! sub-sequences once per container row, and the browser commands that the
//! actions issue, as a state machine that the caller feeds with replies.
use vstd::prelude::*;
use crate::map::{StrMap, text_map, lemma_text_map_insert, lemma_text_map_union};
use crate::page::{
    Page, Scope, ScopeV, BadSelector, css_selector_valid, css_texts, extraction_result, selector_is_valid,
};
use crate::text::{dec_string, usize_to_string, str_eq};
use crate::action::{
    Command, CommandV, Pending, PendingV, Reply, ReplyV, RunError, RunErrorV, ActStep, ActStepV,
    act_start, act_resume, pending_ok, reply_fits, start_action, resume_action, fits,
};
use crate::workflow::{
    BindValue, ExecContext, Extraction, Handler, Sequence, Step, resolve_text,
};

verus! {

// ---------------------------------------------------------------------
// Containers
// ---------------------------------------------------------------------

/// A row after the extraction steps `steps[..k]` ran on the element that
/// `scope` names: each extraction sets its field, or the first invalid
/// selector is the error. Extractions read the page as it was when the
/// container began; its action steps are run against the browser, element
/// by element, once the rows are made (see `inner_advance`).
pub open spec fn fill_row(
    html: Seq<char>,
    scope: ScopeV,
    steps: Seq<Step>,
    k: int,
    row: Map<Seq<char>, Seq<char>>,
    env: Map<Seq<char>, Seq<char>>,
) -> Result<Map<Seq<char>, Seq<char>>, Seq<char>>
    decreases k,
{
    if k <= 0 {
        Ok(row)
    } else {
        match fill_row(html, scope, steps, k - 1, row, env) {
            Err(b) => Err(b),
            Ok(r) => match steps[k - 1] {
                Step::Act(_) => Ok(r),
                Step::Extract(e) => {
                    let sel = resolve_text(e.selector_param(), Some(env));
                    if css_selector_valid(sel) {
                        Ok(
                            r.insert(
                                resolve_text(e.field_param(), Some(env)),
                                extraction_result(e, html, scope, Some(env)),
                            ),
                        )
                    } else {
                        Err(sel)
                    }
                },
            },
        }
    }
}

pub proof fn lemma_fill_row_err(
    html: Seq<char>,
    scope: ScopeV,
    steps: Seq<Step>,
    k: int,
    j: int,
    row: Map<Seq<char>, Seq<char>>,
    env: Map<Seq<char>, Seq<char>>,
)
    requires
        k <= j,
        fill_row(html, scope, steps, k, row, env) is Err,
    ensures
        fill_row(html, scope, steps, j, row, env) == fill_row(html, scope, steps, k, row, env),
    decreases j - k,
{
    if k < j {
        lemma_fill_row_err(html, scope, steps, k, j - 1, row, env);
    }
}

/// The index of the first extraction among `steps[i..]`.
pub open spec fn first_extraction_from(steps: Seq<Step>, i: int) -> Option<int>
    decreases steps.len() - i,
{
    if i < 0 || i >= steps.len() {
        None
    } else if steps[i] is Extract {
        Some(i)
    } else {
        first_extraction_from(steps, i + 1)
    }
}

/// The field whose value tells duplicate container rows apart: the field of
/// the first extraction step, or `_index` when there is none.
pub open spec fn dedup_field(steps: Seq<Step>, env: Map<Seq<char>, Seq<char>>) -> Seq<char> {
    match first_extraction_from(steps, 0) {
        Some(i) => match steps[i] {
            Step::Extract(e) => resolve_text(e.field_param(), Some(env)),
            _ => "_index"@,
        },
        None => "_index"@,
    }
}

/// The value a row has under `key`, or the empty text.
pub open spec fn value_or_empty(row: Map<Seq<char>, Seq<char>>, key: Seq<char>) -> Seq<char> {
    if row.contains_key(key) {
        row[key]
    } else {
        Seq::empty()
    }
}

/// The rows of the first `n` elements that `sel` matches, and the dedup
/// keys seen so far.
pub open spec fn container_rows(
    html: Seq<char>,
    sel: Seq<char>,
    steps: Seq<Step>,
    dedup: bool,
    base: Map<Seq<char>, Seq<char>>,
    env: Map<Seq<char>, Seq<char>>,
    n: int,
) -> Result<(Seq<Map<Seq<char>, Seq<char>>>, Set<Seq<char>>), Seq<char>>
    decreases n,
{
    if n <= 0 {
        Ok((Seq::empty(), Set::empty()))
    } else {
        match container_rows(html, sel, steps, dedup, base, env, n - 1) {
            Err(b) => Err(b),
            Ok((rows, seen)) => {
                let start = base.insert("_index"@, dec_string((n - 1) as nat));
                match fill_row(
                    html,
                    ScopeV::Element { selector: sel, index: n - 1 },
                    steps,
                    steps.len() as int,
                    start,
                    env,
                ) {
                    Err(b) => Err(b),
                    Ok(row) => if dedup {
                        let key = value_or_empty(row, dedup_field(steps, env));
                        if seen.contains(key) {
                            Ok((rows, seen))
                        } else {
                            Ok((rows.push(row), seen.insert(key)))
                        }
                    } else {
                        Ok((rows.push(row), seen))
                    },
                }
            },
        }
    }
}

pub proof fn lemma_container_rows_err(
    html: Seq<char>,
    sel: Seq<char>,
    steps: Seq<Step>,
    dedup: bool,
    base: Map<Seq<char>, Seq<char>>,
    env: Map<Seq<char>, Seq<char>>,
    k: int,
    j: int,
)
    requires
        0 <= k <= j,
        container_rows(html, sel, steps, dedup, base, env, k) is Err,
    ensures
        container_rows(html, sel, steps, dedup, base, env, j) == container_rows(html, sel, steps, dedup, base, env, k),
    decreases j - k,
{
    if k < j {
        lemma_container_rows_err(html, sel, steps, dedup, base, env, k, j - 1);
    }
}

/// What a container yields on the page `html`: one row per matching
/// element (starting from `base`, with `_index` and the extracted fields),
/// duplicates dropped when `dedup` holds; or the first invalid selector.
pub open spec fn container_outcome(
    html: Seq<char>,
    sel: Seq<char>,
    steps: Seq<Step>,
    dedup: bool,
    base: Map<Seq<char>, Seq<char>>,
    env: Map<Seq<char>, Seq<char>>,
) -> Result<Seq<Map<Seq<char>, Seq<char>>>, Seq<char>> {
    if !css_selector_valid(sel) {
        Err(sel)
    } else {
        match container_rows(html, sel, steps, dedup, base, env, css_texts(html, sel).len() as int) {
            Ok((rows, _)) => Ok(rows),
            Err(b) => Err(b),
        }
    }
}

/// The texts of a list of maps.
pub open spec fn rows_view(v: Seq<StrMap<String>>) -> Seq<Map<Seq<char>, Seq<char>>> {
    v.map_values(|m: StrMap<String>| m.texts())
}

fn find_dedup_field(steps: &Vec<Step>, ctx: &ExecContext) -> (r: String)
    ensures
        r@ == dedup_field(steps@, ctx.bindings.texts()),
{
    let mut i: usize = 0;
    while i < steps.len()
        invariant
            i <= steps@.len(),
            first_extraction_from(steps@, i as int) == first_extraction_from(steps@, 0),
        decreases steps@.len() - i,
    {
        if let Step::Extract(e) = &steps[i] {
            return e.field().resolve(Some(ctx)).to_string();
        }
        i = i + 1;
    }
    String::from_str("_index")
}

fn seen_contains(seen: &Vec<String>, key: &str) -> (b: bool)
    ensures
        b == seen@.map_values(|s: String| s@).contains(key@),
{
    let ghost sv = seen@.map_values(|s: String| s@);
    let mut i: usize = 0;
    while i < seen.len()
        invariant
            i <= seen@.len(),
            sv == seen@.map_values(|s: String| s@),
            forall|j: int| 0 <= j < i ==> sv[j] != key@,
        decreases seen@.len() - i,
    {
        if str_eq(seen[i].as_str(), key) {
            assert(sv[i as int] == key@);
            return true;
        }
        i = i + 1;
    }
    false
}

/// Runs the steps of a container on its `index`-th element.
fn fill_element_row(
    page: &Page,
    sel: &str,
    index: usize,
    steps: &Vec<Step>,
    row: &mut StrMap<String>,
    ctx: &ExecContext,
) -> (r: Result<(), BadSelector>)
    requires
        css_selector_valid(sel@),
        index < css_texts(page.source(), sel@).len(),
    ensures
        match fill_row(
            page.source(),
            ScopeV::Element { selector: sel@, index: index as int },
            steps@,
            steps@.len() as int,
            old(row).texts(),
            ctx.bindings.texts(),
        ) {
            Ok(m) => r is Ok && final(row).texts() == m,
            Err(b) => r matches Err(e) && e.selector@ == b,
        },
{
    let ghost scope = ScopeV::Element { selector: sel@, index: index as int };
    let mut k: usize = 0;
    while k < steps.len()
        invariant
            k <= steps@.len(),
            scope == (ScopeV::Element { selector: sel@, index: index as int }),
            css_selector_valid(sel@),
            index < css_texts(page.source(), sel@).len(),
            fill_row(page.source(), scope, steps@, k as int, old(row).texts(), ctx.bindings.texts())
                == Ok::<Map<Seq<char>, Seq<char>>, Seq<char>>(row.texts()),
        decreases steps@.len() - k,
    {
        match &steps[k] {
            Step::Act(_) => {},
            Step::Extract(e) => {
                match e.execute_element(page, sel, index, ctx) {
                    Ok(data) => {
                        proof {
                            lemma_text_map_union(row@, data@);
                        }
                        let ghost before = row.texts();
                        row.extend_from(&data);
                        proof {
                            let f = resolve_text(e.field_param(), Some(ctx.bindings.texts()));
                            let v = extraction_result(*e, page.source(), scope, Some(ctx.bindings.texts()));
                            assert(row.texts() =~= before.insert(f, v));
                        }
                    },
                    Err(b) => {
                        proof {
                            assert(steps@[k as int] == Step::Extract(*e));
                            assert(fill_row(page.source(), scope, steps@, k + 1, old(row).texts(), ctx.bindings.texts())
                                == Err::<Map<Seq<char>, Seq<char>>, Seq<char>>(b.selector@));
                            lemma_fill_row_err(
                                page.source(),
                                scope,
                                steps@,
                                k + 1,
                                steps@.len() as int,
                                old(row).texts(),
                                ctx.bindings.texts(),
                            );
                        }
                        return Err(b);
                    },
                }
            },
        }
        k = k + 1;
    }
    Ok(())
}

/// Runs a container on `page`: the rows of the matching elements, each
/// starting from `base`, or the first invalid selector.
pub fn run_container(
    page: &Page,
    selector: &BindValue<String>,
    steps: &Vec<Step>,
    dedup: bool,
    base: &StrMap<String>,
    ctx: &ExecContext,
) -> (r: Result<Vec<StrMap<String>>, BadSelector>)
    ensures
        match container_outcome(
            page.source(),
            resolve_text(*selector, Some(ctx.bindings.texts())),
            steps@,
            dedup,
            base.texts(),
            ctx.bindings.texts(),
        ) {
            Ok(rows) => r matches Ok(v) && rows_view(v@) == rows,
            Err(b) => r matches Err(e) && e.selector@ == b,
        },
{
    let sel = selector.resolve(Some(ctx));
    if !selector_is_valid(sel) {
        return Err(BadSelector { selector: sel.to_string() });
    }
    let n = page.count(sel);
    let key = find_dedup_field(steps, ctx);
    let ghost html = page.source();
    let ghost env = ctx.bindings.texts();
    let mut rows: Vec<StrMap<String>> = Vec::new();
    let mut seen: Vec<String> = Vec::new();
    let ghost mut gs: Set<Seq<char>> = Set::empty();
    let mut idx: usize = 0;
    assert(rows_view(rows@) =~= Seq::<Map<Seq<char>, Seq<char>>>::empty());
    while idx < n
        invariant
            idx <= n,
            n == css_texts(html, sel@).len(),
            html == page.source(),
            env == ctx.bindings.texts(),
            css_selector_valid(sel@),
            sel@ == resolve_text(*selector, Some(ctx.bindings.texts())),
            key@ == dedup_field(steps@, env),
            container_rows(html, sel@, steps@, dedup, base.texts(), env, idx as int) == Ok::<
                (Seq<Map<Seq<char>, Seq<char>>>, Set<Seq<char>>),
                Seq<char>,
            >((rows_view(rows@), gs)),
            forall|x: Seq<char>| gs.contains(x) <==> seen@.map_values(|s: String| s@).contains(x),
        decreases n - idx,
    {
        let mut row = base.clone_map();
        let ghost start = base.texts().insert("_index"@, dec_string(idx as nat));
        let ix = usize_to_string(idx);
        proof {
            lemma_text_map_insert(row@, "_index"@, ix);
        }
        row.insert(String::from_str("_index"), ix);
        assert(row.texts() == start);
        match fill_element_row(page, sel, idx, steps, &mut row, ctx) {
            Err(b) => {
                proof {
                    assert(container_rows(html, sel@, steps@, dedup, base.texts(), env, idx + 1)
                        == Err::<(Seq<Map<Seq<char>, Seq<char>>>, Set<Seq<char>>), Seq<char>>(b.selector@));
                    lemma_container_rows_err(html, sel@, steps@, dedup, base.texts(), env, idx + 1, n as int);
                }
                return Err(b);
            },
            Ok(()) => {},
        }
        let ghost rv = row.texts();
        let ghost old_rows = rows_view(rows@);
        let ghost old_seen = seen@.map_values(|s: String| s@);
        if dedup {
            let k: String = match row.get(key.as_str()) {
                Some(v) => v.clone(),
                None => String::new(),
            };
            assert(k@ == value_or_empty(rv, key@));
            if seen_contains(&seen, k.as_str()) {
                idx = idx + 1;
                continue;
            }
            let ghost kv = k@;
            seen.push(k);
            proof {
                assert(seen@.map_values(|s: String| s@) =~= old_seen.push(kv));
                assert forall|x: Seq<char>| gs.insert(kv).contains(x) <==> old_seen.push(kv).contains(x) by {
                    if old_seen.push(kv).contains(x) {
                        let j = choose|j: int| 0 <= j < old_seen.push(kv).len() && old_seen.push(kv)[j] == x;
                        if j < old_seen.len() {
                            assert(old_seen.contains(x));
                        }
                    }
                    if old_seen.contains(x) {
                        let j = choose|j: int| 0 <= j < old_seen.len() && old_seen[j] == x;
                        assert(old_seen.push(kv)[j] == x);
                    }
                    assert(old_seen.push(kv)[old_seen.len() as int] == kv);
                }
                gs = gs.insert(kv);
            }
        }
        rows.push(row);
        proof {
            assert(rows_view(rows@) =~= old_rows.push(rv));
        }
        idx = idx + 1;
    }
    Ok(rows)
}


// ---------------------------------------------------------------------
// The run of a sequence
// ---------------------------------------------------------------------

/// The sub-sequence that handler `i` of `s` runs, if it is one.
pub open spec fn sub_at(s: Sequence, i: int) -> Option<Sequence> {
    if 0 <= i < s.step_sequence@.len() {
        match s.step_sequence@[i] {
            Handler::SubSequence(x) => Some(x),
            _ => None,
        }
    } else {
        None
    }
}

/// The sequence reached from `root` through the sub-sequence handlers at
/// positions `poses`.
pub open spec fn seq_along(root: Sequence, poses: Seq<int>) -> Option<Sequence>
    decreases poses.len(),
{
    if poses.len() == 0 {
        Some(root)
    } else {
        match seq_along(root, poses.drop_last()) {
            Some(s) => sub_at(s, poses.last()),
            None => None,
        }
    }
}

/// One level of the run: a sequence being run, where it is, its context,
/// its results and page, and the container rows a sub-sequence handler
/// works through.
pub struct Frame {
    pos: usize,
    ctx: ExecContext,
    results: Vec<StrMap<String>>,
    page: Option<Page>,
    rows: Vec<StrMap<String>>,
    row: usize,
    in_sub: bool,
}

pub ghost struct FrameV {
    pub pos: int,
    pub bindings: Map<Seq<char>, Seq<char>>,
    pub data: Map<Seq<char>, Seq<char>>,
    pub results: Seq<Map<Seq<char>, Seq<char>>>,
    pub page: Option<Seq<char>>,
    pub rows: Seq<Map<Seq<char>, Seq<char>>>,
    pub row: int,
    pub in_sub: bool,
}

pub open spec fn page_view(p: Option<Page>) -> Option<Seq<char>> {
    match p {
        Some(pg) => Some(pg.source()),
        None => None,
    }
}

impl View for Frame {
    type V = FrameV;

    closed spec fn view(&self) -> FrameV {
        FrameV {
            pos: self.pos as int,
            bindings: self.ctx.bindings.texts(),
            data: self.ctx.data.texts(),
            results: rows_view(self.results@),
            page: page_view(self.page),
            rows: rows_view(self.rows@),
            row: self.row as int,
            in_sub: self.in_sub,
        }
    }
}

/// A run in progress. The caller drives it: `advance` while it is not
/// waiting, and `reply` with the browser's answer to each command issued.
pub struct Runner {
    root: Sequence,
    frames: Vec<Frame>,
    waiting: Option<Pending>,
    done: bool,
    inner: Option<Inner>,
}

/// A container working through its action steps: its resolved selector,
/// how many elements it matched, and the element and step reached.
pub struct Inner {
    selector: String,
    count: usize,
    elem: usize,
    step: usize,
}

pub ghost struct InnerV {
    pub selector: Seq<char>,
    pub count: int,
    pub elem: int,
    pub step: int,
}

impl View for Inner {
    type V = InnerV;

    closed spec fn view(&self) -> InnerV {
        InnerV { selector: self.selector@, count: self.count as int, elem: self.elem as int, step: self.step as int }
    }
}

pub open spec fn opt_inner_view(o: Option<Inner>) -> Option<InnerV> {
    match o {
        Some(x) => Some(x@),
        None => None,
    }
}

pub ghost struct RunnerV {
    pub frames: Seq<FrameV>,
    pub waiting: Option<PendingV>,
    pub done: bool,
    pub inner: Option<InnerV>,
}

/// What a move of the run yields.
pub enum Progress {
    /// Nothing for the caller to do; advance again.
    Busy,
    /// Perform this command, on the whole page or within the element that
    /// the scope names, and reply with its outcome.
    Issue(Command, Scope),
    /// The run is complete with these rows.
    Finished(Vec<StrMap<String>>),
    /// The run stopped with this error.
    Failed(RunError),
}

pub ghost enum ProgressV {
    Busy,
    Issue(CommandV, ScopeV),
    Finished(Seq<Map<Seq<char>, Seq<char>>>),
    Failed(RunErrorV),
}

impl View for Progress {
    type V = ProgressV;

    open spec fn view(&self) -> ProgressV {
        match self {
            Progress::Busy => ProgressV::Busy,
            Progress::Issue(c, sc) => ProgressV::Issue(c@, sc@),
            Progress::Finished(v) => ProgressV::Finished(rows_view(v@)),
            Progress::Failed(e) => ProgressV::Failed(e@),
        }
    }
}

pub open spec fn opt_pending_view(p: Option<Pending>) -> Option<PendingV> {
    match p {
        Some(x) => Some(x@),
        None => None,
    }
}

impl View for Runner {
    type V = RunnerV;

    closed spec fn view(&self) -> RunnerV {
        RunnerV {
            frames: self.frames@.map_values(|f: Frame| f@),
            waiting: opt_pending_view(self.waiting),
            done: self.done,
            inner: opt_inner_view(self.inner),
        }
    }
}

/// The handler positions of the frames below level `k`.
pub open spec fn poses(frames: Seq<FrameV>, k: int) -> Seq<int> {
    frames.subrange(0, k).map_values(|f: FrameV| f.pos)
}

/// The sequence that level `k` runs.
pub open spec fn level_seq(root: Sequence, frames: Seq<FrameV>, k: int) -> Sequence {
    seq_along(root, poses(frames, k))->0
}

/// The handler that level `k` is at.
pub open spec fn level_handler(root: Sequence, frames: Seq<FrameV>, k: int) -> Handler {
    level_seq(root, frames, k).step_sequence@[frames[k].pos]
}

/// The shape that every state of a run keeps: the levels are well placed,
/// and a run that waits does so on an action of the top level.
pub open spec fn run_wf(root: Sequence, s: RunnerV) -> bool {
    let n = s.frames.len();
    &&& frames_ok(root, s.frames)
    &&& match s.inner {
        Some(c) => {
            &&& !s.frames[n - 1].in_sub
            &&& s.frames[n - 1].pos < level_seq(root, s.frames, n - 1).step_sequence@.len()
            &&& level_handler(root, s.frames, n - 1) matches Handler::Container { steps, .. } && 0 <= c.step
                <= steps@.len()
            &&& 0 <= c.elem <= c.count
        },
        None => true,
    }
    &&& match s.waiting {
        Some(p) => {
            &&& !s.frames[n - 1].in_sub
            &&& s.frames[n - 1].pos < level_seq(root, s.frames, n - 1).step_sequence@.len()
            &&& match s.inner {
                None => level_handler(root, s.frames, n - 1) matches Handler::Item(Step::Act(_)),
                Some(c) => level_handler(root, s.frames, n - 1) matches Handler::Container { steps, .. } && c.step
                    < steps@.len() && steps@[c.step] is Act,
            }
            &&& pending_ok(p)
        },
        None => true,
    }
}

/// Whether some of the steps are actions.
pub open spec fn has_act(steps: Seq<Step>) -> bool {
    exists|i: int| 0 <= i < steps.len() && #[trigger] steps[i] is Act
}

/// Where the commands of the current action apply: within the element that
/// a container has reached, else on the whole page.
pub open spec fn scope_of(s: RunnerV) -> ScopeV {
    match s.inner {
        Some(c) => ScopeV::Element { selector: c.selector, index: c.elem },
        None => ScopeV::Document,
    }
}

/// The inner state moved to the next step.
pub open spec fn next_step(c: InnerV) -> InnerV {
    InnerV { step: c.step + 1, ..c }
}

/// One move of a container that works through its actions: for each
/// element in turn, its steps in order, each action issuing its commands
/// within that element; extractions were already made. After the last
/// element the run moves past the container.
pub open spec fn inner_advance(root: Sequence, s: RunnerV, stop: bool) -> (RunnerV, ProgressV) {
    let n = s.frames.len();
    let f = s.frames[n - 1];
    let c = s.inner->0;
    let sq = level_seq(root, s.frames, n - 1);
    let stopped = ProgressV::Failed(RunErrorV::Stopped { sequence: sq.sequence_name@ });
    match level_handler(root, s.frames, n - 1) {
        Handler::Container { steps, .. } => if stop {
            ended(s, stopped)
        } else if c.elem >= c.count {
            (RunnerV { inner: None, ..with_top(s, next_pos(f)) }, ProgressV::Busy)
        } else if c.step >= steps@.len() {
            (RunnerV { inner: Some(InnerV { elem: c.elem + 1, step: 0, ..c }), ..s }, ProgressV::Busy)
        } else {
            match steps@[c.step] {
                Step::Extract(_) => (RunnerV { inner: Some(next_step(c)), ..s }, ProgressV::Busy),
                Step::Act(a) => match act_start(a, f.bindings) {
                    ActStepV::Issue(cmd, p) => (RunnerV { waiting: Some(p), ..s }, ProgressV::Issue(cmd, scope_of(s))),
                    ActStepV::Complete(_) => (RunnerV { inner: Some(next_step(c)), ..s }, ProgressV::Busy),
                    ActStepV::Fail(e) => ended(s, ProgressV::Failed(e)),
                },
            }
        },
        _ => (s, ProgressV::Busy),
    }
}

/// The rows a finished level hands up: its results, then its data when
/// it collected any.
pub open spec fn level_output(f: FrameV) -> Seq<Map<Seq<char>, Seq<char>>> {
    if f.data == Map::<Seq<char>, Seq<char>>::empty() {
        f.results
    } else {
        f.results.push(f.data)
    }
}

/// The rows a container row yields through a sub-sequence run that output
/// `out`: the row itself when the run output nothing, else each output row
/// completed with the fields of the container row that it lacks.
pub open spec fn merge_rows(row: Map<Seq<char>, Seq<char>>, out: Seq<Map<Seq<char>, Seq<char>>>) -> Seq<
    Map<Seq<char>, Seq<char>>,
> {
    if out.len() == 0 {
        seq![row]
    } else {
        out.map_values(|sr: Map<Seq<char>, Seq<char>>| row.union_prefer_right(sr))
    }
}

/// The state with the top level replaced by `f`.
pub open spec fn with_top(s: RunnerV, f: FrameV) -> RunnerV {
    RunnerV { frames: s.frames.update(s.frames.len() - 1, f), ..s }
}

/// The state ended with `p`.
pub open spec fn ended(s: RunnerV, p: ProgressV) -> (RunnerV, ProgressV) {
    (RunnerV { done: true, ..s }, p)
}

/// The top level moved past its handler.
pub open spec fn next_pos(f: FrameV) -> FrameV {
    FrameV { pos: f.pos + 1, ..f }
}

/// The top level after an action completed with `page`.
pub open spec fn after_action(f: FrameV, page: Option<Seq<char>>) -> FrameV {
    match page {
        Some(p) => FrameV { pos: f.pos + 1, page: Some(p), ..f },
        None => FrameV { pos: f.pos + 1, ..f },
    }
}

/// A fresh level for a sub-sequence run on container row `row`.
pub open spec fn sub_frame(bindings: Map<Seq<char>, Seq<char>>, row: Map<Seq<char>, Seq<char>>) -> FrameV {
    FrameV {
        pos: 0,
        bindings: bindings.union_prefer_right(row),
        data: Map::empty(),
        results: Seq::empty(),
        page: None,
        rows: Seq::empty(),
        row: 0,
        in_sub: false,
    }
}

/// One move of a run that is not waiting for a reply, `stop` being the
/// state of the stop flag.
pub open spec fn advance_spec(root: Sequence, s: RunnerV, stop: bool) -> (RunnerV, ProgressV) {
    if s.inner is Some {
        inner_advance(root, s, stop)
    } else {
        outer_advance(root, s, stop)
    }
}

/// One move of a run outside any container's actions.
pub open spec fn outer_advance(root: Sequence, s: RunnerV, stop: bool) -> (RunnerV, ProgressV) {
    let n = s.frames.len();
    let f = s.frames[n - 1];
    let sq = level_seq(root, s.frames, n - 1);
    let stopped = ProgressV::Failed(RunErrorV::Stopped { sequence: sq.sequence_name@ });
    if f.in_sub {
        if f.row < f.rows.len() {
            if stop {
                ended(s, stopped)
            } else {
                (RunnerV { frames: s.frames.push(sub_frame(f.bindings, f.rows[f.row])), ..s }, ProgressV::Busy)
            }
        } else {
            (
                with_top(
                    s,
                    FrameV { in_sub: false, rows: Seq::empty(), row: 0, pos: f.pos + 1, ..f },
                ),
                ProgressV::Busy,
            )
        }
    } else if f.pos >= sq.step_sequence@.len() {
        let out = level_output(f);
        if n == 1 {
            ended(s, ProgressV::Finished(out))
        } else {
            let p = s.frames[n - 2];
            let np = FrameV { results: p.results + merge_rows(p.rows[p.row], out), row: p.row + 1, ..p };
            (RunnerV { frames: s.frames.drop_last().update(n - 2, np), ..s }, ProgressV::Busy)
        }
    } else if stop {
        ended(s, stopped)
    } else {
        let env = f.bindings;
        match sq.step_sequence@[f.pos] {
            Handler::Item(Step::Act(a)) => match act_start(a, env) {
                ActStepV::Issue(c, p) => (RunnerV { waiting: Some(p), ..s }, ProgressV::Issue(c, ScopeV::Document)),
                ActStepV::Complete(pg) => (with_top(s, after_action(f, pg)), ProgressV::Busy),
                ActStepV::Fail(e) => ended(s, ProgressV::Failed(e)),
            },
            Handler::Item(Step::Extract(e)) => match f.page {
                None => (with_top(s, next_pos(f)), ProgressV::Busy),
                Some(html) => {
                    let sel = resolve_text(e.selector_param(), Some(env));
                    if !css_selector_valid(sel) {
                        ended(s, ProgressV::Failed(RunErrorV::InvalidSelector { selector: sel }))
                    } else {
                        let d = map![resolve_text(e.field_param(), Some(env)) => extraction_result(e, html, ScopeV::Document, Some(env))];
                        (
                            with_top(
                                s,
                                FrameV {
                                    pos: f.pos + 1,
                                    bindings: f.bindings.union_prefer_right(d),
                                    data: f.data.union_prefer_right(d),
                                    ..f
                                },
                            ),
                            ProgressV::Busy,
                        )
                    }
                },
            },
            Handler::Container { selector, steps, dedup } => match f.page {
                None => ended(s, ProgressV::Failed(RunErrorV::NoPage)),
                Some(html) => match container_outcome(
                    html,
                    resolve_text(selector, Some(env)),
                    steps@,
                    dedup,
                    sq.target_data.texts(),
                    env,
                ) {
                    Ok(rows) => if has_act(steps@) {
                        (
                            RunnerV {
                                inner: Some(
                                    InnerV {
                                        selector: resolve_text(selector, Some(env)),
                                        count: css_texts(html, resolve_text(selector, Some(env))).len() as int,
                                        elem: 0,
                                        step: 0,
                                    },
                                ),
                                ..with_top(s, FrameV { results: rows, ..f })
                            },
                            ProgressV::Busy,
                        )
                    } else {
                        (with_top(s, FrameV { pos: f.pos + 1, results: rows, ..f }), ProgressV::Busy)
                    },
                    Err(b) => ended(s, ProgressV::Failed(RunErrorV::InvalidSelector { selector: b })),
                },
            },
            Handler::SubSequence(_) => (
                with_top(s, FrameV { in_sub: true, rows: f.results, results: Seq::empty(), row: 0, ..f }),
                ProgressV::Busy,
            ),
        }
    }
}

/// The move of a run on the reply `r` to the command it waits on.
pub open spec fn reply_spec(s: RunnerV, r: ReplyV) -> (RunnerV, ProgressV) {
    let n = s.frames.len();
    let f = s.frames[n - 1];
    match act_resume(s.waiting->0, r) {
        ActStepV::Issue(c, p) => (RunnerV { waiting: Some(p), ..s }, ProgressV::Issue(c, scope_of(s))),
        ActStepV::Complete(pg) => match s.inner {
            Some(ci) => (RunnerV { waiting: None, inner: Some(next_step(ci)), ..s }, ProgressV::Busy),
            None => (RunnerV { waiting: None, ..with_top(s, after_action(f, pg)) }, ProgressV::Busy),
        },
        ActStepV::Fail(e) => (RunnerV { waiting: None, done: true, ..s }, ProgressV::Failed(e)),
    }
}


// ---------------------------------------------------------------------
// Shape lemmas
// ---------------------------------------------------------------------

/// The levels of a run are well placed: each runs the sub-sequence that
/// the level below it is at, within its handlers, and every level below the
/// top works through a container row.
#[verifier::opaque]
pub open spec fn frames_ok(root: Sequence, fr: Seq<FrameV>) -> bool {
    let n = fr.len();
    &&& n >= 1
    &&& forall|k: int| 0 <= k < n ==> #[trigger] seq_along(root, poses(fr, k)) is Some
    &&& forall|k: int|
        0 <= k < n ==> 0 <= (#[trigger] fr[k]).pos <= level_seq(root, fr, k).step_sequence@.len()
    &&& forall|k: int| 0 <= k < n ==> 0 <= (#[trigger] fr[k]).row <= fr[k].rows.len()
    &&& forall|k: int| 0 <= k < n - 1 ==> (#[trigger] fr[k]).in_sub && fr[k].row < fr[k].rows.len()
    &&& forall|k: int|
        0 <= k < n && (#[trigger] fr[k]).in_sub ==> fr[k].pos < level_seq(
            root,
            fr,
            k,
        ).step_sequence@.len() && level_handler(root, fr, k) is SubSequence
}

/// What the shape says of the top two levels.
proof fn lemma_frames_facts(root: Sequence, fr: Seq<FrameV>)
    requires
        frames_ok(root, fr),
    ensures
        fr.len() >= 1,
        forall|k: int| 0 <= k < fr.len() ==> #[trigger] seq_along(root, poses(fr, k)) is Some,
        0 <= fr[fr.len() - 1].pos <= level_seq(root, fr, fr.len() - 1).step_sequence@.len(),
        0 <= fr[fr.len() - 1].row <= fr[fr.len() - 1].rows.len(),
        fr[fr.len() - 1].in_sub ==> fr[fr.len() - 1].pos < level_seq(root, fr, fr.len() - 1).step_sequence@.len()
            && level_handler(root, fr, fr.len() - 1) is SubSequence,
        fr.len() >= 2 ==> fr[fr.len() - 2].in_sub && fr[fr.len() - 2].row < fr[fr.len() - 2].rows.len(),
{
    reveal(frames_ok);
}

/// Replacing the top level keeps the shape when the new top is well placed.
proof fn lemma_update_top(root: Sequence, fr: Seq<FrameV>, f: FrameV)
    requires
        frames_ok(root, fr),
        0 <= f.pos <= level_seq(root, fr, fr.len() - 1).step_sequence@.len(),
        0 <= f.row <= f.rows.len(),
        f.in_sub ==> f.pos < level_seq(root, fr, fr.len() - 1).step_sequence@.len() && level_seq(
            root,
            fr,
            fr.len() - 1,
        ).step_sequence@[f.pos] is SubSequence,
    ensures
        frames_ok(root, fr.update(fr.len() - 1, f)),
        forall|k: int| 0 <= k < fr.len() ==> #[trigger] poses(fr.update(fr.len() - 1, f), k) == poses(fr, k),
{
    reveal(frames_ok);
    let n = fr.len();
    let g = fr.update(n - 1, f);
    assert forall|k: int| 0 <= k < n implies #[trigger] poses(g, k) == poses(fr, k) by {
        assert(g.subrange(0, k) =~= fr.subrange(0, k));
    }
    assert forall|k: int| 0 <= k < n implies #[trigger] seq_along(root, poses(g, k)) is Some by {
        assert(poses(g, k) == poses(fr, k));
    }
    assert forall|k: int| 0 <= k < n implies 0 <= (#[trigger] g[k]).pos <= level_seq(root, g, k).step_sequence@.len() by {
        assert(poses(g, k) == poses(fr, k));
    }
    assert forall|k: int|
        0 <= k < n && (#[trigger] g[k]).in_sub implies g[k].pos < level_seq(root, g, k).step_sequence@.len()
        && level_handler(root, g, k) is SubSequence by {
        assert(poses(g, k) == poses(fr, k));
    }
}

/// Opening a level for a sub-sequence run keeps the shape.
#[verifier::rlimit(40)]
proof fn lemma_push_frame(root: Sequence, fr: Seq<FrameV>, nf: FrameV)
    requires
        frames_ok(root, fr),
        fr[fr.len() - 1].in_sub,
        fr[fr.len() - 1].row < fr[fr.len() - 1].rows.len(),
        nf.pos == 0,
        nf.row == 0,
        nf.rows.len() == 0,
        !nf.in_sub,
    ensures
        frames_ok(root, fr.push(nf)),
        forall|k: int| 0 <= k < fr.len() ==> #[trigger] poses(fr.push(nf), k) == poses(fr, k),
        level_seq(root, fr.push(nf), fr.len() as int) == sub_at(level_seq(root, fr, fr.len() - 1), fr[fr.len() - 1].pos)->0,
{
    reveal(frames_ok);
    let n = fr.len();
    let g = fr.push(nf);
    assert forall|k: int| 0 <= k < n implies #[trigger] poses(g, k) == poses(fr, k) by {
        assert(g.subrange(0, k) =~= fr.subrange(0, k));
    }
    let top = fr[n - 1];
    assert(poses(g, n as int).drop_last() =~= poses(fr, n - 1));
    assert(poses(g, n as int).last() == top.pos);
    assert(poses(fr, n - 1) == poses(g, n - 1));
    let sq = level_seq(root, fr, n - 1);
    assert(seq_along(root, poses(g, n as int)) == sub_at(sq, top.pos));
    assert forall|k: int| 0 <= k < n + 1 implies #[trigger] seq_along(root, poses(g, k)) is Some by {
        if k < n {
            assert(poses(g, k) == poses(fr, k));
        }
    }
    assert forall|k: int| 0 <= k < n + 1 implies 0 <= (#[trigger] g[k]).pos <= level_seq(root, g, k).step_sequence@.len() by {
        if k < n {
            assert(poses(g, k) == poses(fr, k));
        }
    }
    assert forall|k: int|
        0 <= k < n + 1 && (#[trigger] g[k]).in_sub implies g[k].pos < level_seq(root, g, k).step_sequence@.len()
        && level_handler(root, g, k) is SubSequence by {
        assert(poses(g, k) == poses(fr, k));
    }
}

/// Closing the top level and moving its parent to the next row keeps the shape.
proof fn lemma_pop_frame(root: Sequence, fr: Seq<FrameV>, p: FrameV)
    requires
        frames_ok(root, fr),
        fr.len() >= 2,
        p.pos == fr[fr.len() - 2].pos,
        p.in_sub,
        p.rows == fr[fr.len() - 2].rows,
        p.row == fr[fr.len() - 2].row + 1,
    ensures
        frames_ok(root, fr.drop_last().update(fr.len() - 2, p)),
        forall|k: int| 0 <= k < fr.len() - 1 ==> #[trigger] poses(fr.drop_last().update(fr.len() - 2, p), k) == poses(fr, k),
{
    reveal(frames_ok);
    let n = fr.len();
    let g = fr.drop_last().update(n - 2, p);
    assert forall|k: int| 0 <= k < n - 1 implies #[trigger] poses(g, k) == poses(fr, k) by {
        assert(g.subrange(0, k) =~= fr.subrange(0, k));
    }
    assert forall|k: int| 0 <= k < n - 1 implies #[trigger] seq_along(root, poses(g, k)) is Some by {
        assert(poses(g, k) == poses(fr, k));
    }
    assert forall|k: int| 0 <= k < n - 1 implies 0 <= (#[trigger] g[k]).pos <= level_seq(root, g, k).step_sequence@.len() by {
        assert(poses(g, k) == poses(fr, k));
    }
    assert forall|k: int|
        0 <= k < n - 1 && (#[trigger] g[k]).in_sub implies g[k].pos < level_seq(root, g, k).step_sequence@.len()
        && level_handler(root, g, k) is SubSequence by {
        assert(poses(g, k) == poses(fr, k));
    }
}

// ---------------------------------------------------------------------
// Laws of a run
// ---------------------------------------------------------------------

/// Fail-fast: a move ends the run exactly when it reports a failure or the
/// finished rows; a move issues a command exactly when it leaves the run
/// waiting for the reply.
pub proof fn law_advance_ends_on_failure_or_finish(root: Sequence, s: RunnerV, stop: bool)
    requires
        run_wf(root, s),
        s.waiting is None,
        !s.done,
    ensures
        advance_spec(root, s, stop).0.done <==> (advance_spec(root, s, stop).1 is Failed
            || advance_spec(root, s, stop).1 is Finished),
        advance_spec(root, s, stop).0.waiting is Some <==> advance_spec(root, s, stop).1 is Issue,
{
}

/// Fail-fast on the browser side: an error answer fails the run with that
/// error's text, and a reply never finishes a run.
pub proof fn law_reply_failure_stops_run(s: RunnerV, r: ReplyV)
    requires
        s.waiting is Some,
        !s.done,
    ensures
        reply_spec(s, r).0.done <==> reply_spec(s, r).1 is Failed,
        reply_spec(s, r).0.waiting is Some <==> reply_spec(s, r).1 is Issue,
        !(reply_spec(s, r).1 is Finished),
        r matches ReplyV::Failed(m) ==> reply_spec(s, r).1 == ProgressV::Failed(
            RunErrorV::Browser { message: m },
        ),
{
}

/// With the stop flag set, a move issues no browser command: it fails with
/// the stop error naming the running sequence, or only closes levels.
pub proof fn law_stop_issues_no_command(root: Sequence, s: RunnerV)
    requires
        run_wf(root, s),
        s.waiting is None,
        !s.done,
    ensures
        !(advance_spec(root, s, true).1 is Issue),
        advance_spec(root, s, true).1 is Failed ==> advance_spec(root, s, true).1 == ProgressV::Failed(
            RunErrorV::Stopped {
                sequence: level_seq(root, s.frames, s.frames.len() - 1).sequence_name@,
            },
        ),
{
}

/// What an extraction finds becomes a binding: after the move that runs an
/// extraction on the page, a parameter bound to the field's name stands
/// for the value found, and the field joins the data.
pub proof fn law_extracted_field_binds(
    root: Sequence,
    s: RunnerV,
    e: Extraction,
    html: Seq<char>,
    b: BindValue<String>,
)
    requires
        run_wf(root, s),
        s.waiting is None,
        !s.done,
        !s.frames[s.frames.len() - 1].in_sub,
        s.frames[s.frames.len() - 1].pos < level_seq(root, s.frames, s.frames.len() - 1).step_sequence@.len(),
        level_handler(root, s.frames, s.frames.len() - 1) == Handler::Item(Step::Extract(e)),
        s.frames[s.frames.len() - 1].page == Some(html),
        css_selector_valid(resolve_text(e.selector_param(), Some(s.frames[s.frames.len() - 1].bindings))),
        b.binding matches Some(k) && k@ == resolve_text(e.field_param(), Some(s.frames[s.frames.len() - 1].bindings)),
    ensures
        ({
            let env = s.frames[s.frames.len() - 1].bindings;
            let next = advance_spec(root, s, false);
            let top = next.0.frames[s.frames.len() - 1];
            let value = extraction_result(e, html, ScopeV::Document, Some(env));
            &&& next.1 is Busy
            &&& resolve_text(b, Some(top.bindings)) == value
            &&& top.data[resolve_text(e.field_param(), Some(env))] == value
        }),
{
    let n = s.frames.len();
    lemma_frames_facts(root, s.frames);
}

/// A container runs its action steps element by element: while it works
/// through them every command it issues applies within the element it has
/// reached, it moves on by one element at most per move, and the run goes
/// past the container only once every element it matched had its turn.
pub proof fn law_container_actions_per_element(root: Sequence, s: RunnerV, stop: bool)
    requires
        run_wf(root, s),
        s.waiting is None,
        !s.done,
        s.inner is Some,
    ensures
        ({
            let c = s.inner->0;
            let next = advance_spec(root, s, stop);
            &&& next.1 matches ProgressV::Issue(_, sc) ==> sc == (ScopeV::Element { selector: c.selector, index: c.elem })
            &&& next.0.inner is None && !next.0.done ==> c.elem >= c.count
            &&& next.0.inner matches Some(c2) ==> c2.selector == c.selector && c2.count == c.count && (c2.elem
                == c.elem || c2.elem == c.elem + 1)
        }),
{
}

/// The rows that a container row yields through a sub-sequence run keep
/// every field of the container row; when the run output rows, there is
/// one per output row and its own fields win.
pub proof fn law_sub_rows_keep_container_fields(
    row: Map<Seq<char>, Seq<char>>,
    out: Seq<Map<Seq<char>, Seq<char>>>,
)
    ensures
        forall|i: int, k: Seq<char>|
            0 <= i < merge_rows(row, out).len() && #[trigger] row.contains_key(k) ==> (#[trigger] merge_rows(
                row,
                out,
            )[i]).contains_key(k),
        out.len() == 0 ==> merge_rows(row, out) == seq![row],
        out.len() > 0 ==> merge_rows(row, out).len() == out.len(),
        forall|i: int, k: Seq<char>|
            0 <= i < out.len() && #[trigger] out[i].contains_key(k) ==> (#[trigger] merge_rows(row, out)[i])[k]
                == out[i][k],
{
}

/// The dedup keys of the rows kept so far are distinct, and `seen` holds
/// exactly them.
proof fn lemma_container_rows_dedup(
    html: Seq<char>,
    sel: Seq<char>,
    steps: Seq<Step>,
    base: Map<Seq<char>, Seq<char>>,
    env: Map<Seq<char>, Seq<char>>,
    n: int,
)
    requires
        container_rows(html, sel, steps, true, base, env, n) is Ok,
    ensures
        ({
            let (rows, seen) = container_rows(html, sel, steps, true, base, env, n)->Ok_0;
            let key = dedup_field(steps, env);
            &&& forall|i: int, j: int|
                0 <= i < j < rows.len() ==> value_or_empty(#[trigger] rows[i], key) != value_or_empty(
                    #[trigger] rows[j],
                    key,
                )
            &&& forall|i: int| 0 <= i < rows.len() ==> seen.contains(value_or_empty(#[trigger] rows[i], key))
        }),
    decreases n,
{
    if n > 0 {
        lemma_container_rows_dedup(html, sel, steps, base, env, n - 1);
    }
}

/// A container with `dedup` set yields rows whose dedup keys are distinct.
pub proof fn law_dedup_rows_distinct(
    html: Seq<char>,
    sel: Seq<char>,
    steps: Seq<Step>,
    base: Map<Seq<char>, Seq<char>>,
    env: Map<Seq<char>, Seq<char>>,
)
    requires
        container_outcome(html, sel, steps, true, base, env) is Ok,
    ensures
        ({
            let rows = container_outcome(html, sel, steps, true, base, env)->Ok_0;
            let key = dedup_field(steps, env);
            forall|i: int, j: int|
                0 <= i < j < rows.len() ==> value_or_empty(#[trigger] rows[i], key) != value_or_empty(
                    #[trigger] rows[j],
                    key,
                )
        }),
{
    lemma_container_rows_dedup(html, sel, steps, base, env, css_texts(html, sel).len() as int);
}

/// Without `dedup`, a container yields one row per matching element.
proof fn lemma_container_rows_count(
    html: Seq<char>,
    sel: Seq<char>,
    steps: Seq<Step>,
    base: Map<Seq<char>, Seq<char>>,
    env: Map<Seq<char>, Seq<char>>,
    n: int,
)
    requires
        n >= 0,
        container_rows(html, sel, steps, false, base, env, n) is Ok,
    ensures
        (container_rows(html, sel, steps, false, base, env, n)->Ok_0).0.len() == n,
    decreases n,
{
    if n > 0 {
        lemma_container_rows_count(html, sel, steps, base, env, n - 1);
    }
}

/// Without `dedup`, a container yields one row per element its selector
/// matches.
pub proof fn law_container_row_per_element(
    html: Seq<char>,
    sel: Seq<char>,
    steps: Seq<Step>,
    base: Map<Seq<char>, Seq<char>>,
    env: Map<Seq<char>, Seq<char>>,
)
    requires
        container_outcome(html, sel, steps, false, base, env) is Ok,
    ensures
        container_outcome(html, sel, steps, false, base, env)->Ok_0.len() == css_texts(html, sel).len(),
{
    lemma_container_rows_count(html, sel, steps, base, env, css_texts(html, sel).len() as int);
}

// ---------------------------------------------------------------------
// The run, executed
// ---------------------------------------------------------------------

pub open spec fn frames_view(v: Seq<Frame>) -> Seq<FrameV> {
    v.map_values(|f: Frame| f@)
}

/// The sequence that level `k` runs.
fn has_act_step(steps: &Vec<Step>) -> (b: bool)
    ensures
        b == has_act(steps@),
{
    let mut i: usize = 0;
    while i < steps.len()
        invariant
            i <= steps@.len(),
            forall|j: int| 0 <= j < i ==> !(#[trigger] steps@[j] is Act),
        decreases steps@.len() - i,
    {
        if let Step::Act(_) = &steps[i] {
            return true;
        }
        i = i + 1;
    }
    false
}

fn seq_at_level<'a>(root: &'a Sequence, frames: &Vec<Frame>, k: usize) -> (s: &'a Sequence)
    requires
        k <= frames@.len(),
        forall|i: int| 0 <= i <= k ==> #[trigger] seq_along(*root, poses(frames_view(frames@), i)) is Some,
    ensures
        Some(*s) == seq_along(*root, poses(frames_view(frames@), k as int)),
{
    let ghost fv = frames_view(frames@);
    let mut s: &'a Sequence = root;
    let mut i: usize = 0;
    assert(poses(fv, 0) =~= Seq::<int>::empty());
    while i < k
        invariant
            i <= k <= frames@.len(),
            fv == frames_view(frames@),
            forall|j: int| 0 <= j <= k ==> #[trigger] seq_along(*root, poses(fv, j)) is Some,
            Some(*s) == seq_along(*root, poses(fv, i as int)),
        decreases k - i,
    {
        let p = frames[i].pos;
        proof {
            assert(poses(fv, i + 1).drop_last() =~= poses(fv, i as int));
            assert(poses(fv, i + 1).last() == p);
            assert(seq_along(*root, poses(fv, i + 1)) is Some);
        }
        match &s.step_sequence[p] {
            Handler::SubSequence(x) => {
                s = x;
            },
            _ => {
                proof {
                    assert(false);
                }
            },
        }
        i = i + 1;
    }
    s
}

fn clone_rows(v: &Vec<StrMap<String>>) -> (r: Vec<StrMap<String>>)
    ensures
        rows_view(r@) == rows_view(v@),
{
    let mut r: Vec<StrMap<String>> = Vec::new();
    let mut i: usize = 0;
    while i < v.len()
        invariant
            i <= v@.len(),
            r@.len() == i,
            forall|j: int| 0 <= j < i ==> (#[trigger] r@[j]).texts() == v@[j].texts(),
        decreases v@.len() - i,
    {
        let c = v[i].clone_map();
        r.push(c);
        i = i + 1;
    }
    assert(rows_view(r@) =~= rows_view(v@));
    r
}

/// The texts of a map are empty exactly when the map is.
proof fn lemma_texts_empty(m: &StrMap<String>, empty: bool)
    requires
        empty == (m@ == Map::<Seq<char>, String>::empty()),
        !empty ==> m@.contains_key(m.entries()[0].0@),
    ensures
        empty == (m.texts() == Map::<Seq<char>, Seq<char>>::empty()),
{
    if empty {
        assert(m.texts() =~= Map::<Seq<char>, Seq<char>>::empty());
    } else {
        assert(m.texts().contains_key(m.entries()[0].0@));
    }
}

/// The rows a finished level hands up, taken from the level.
fn frame_output(f: Frame) -> (out: Vec<StrMap<String>>)
    ensures
        rows_view(out@) == level_output(f@),
{
    let ghost fv = f@;
    let Frame { mut results, ctx, .. } = f;
    let empty = ctx.data.is_empty();
    proof {
        lemma_texts_empty(&ctx.data, empty);
    }
    if !empty {
        let ghost before = results@;
        let ghost dv = ctx.data.texts();
        results.push(ctx.data);
        assert(rows_view(results@) =~= rows_view(before).push(dv));
    }
    results
}

/// A copy of the rows a finished level hands up.
fn frame_output_copy(f: &Frame) -> (out: Vec<StrMap<String>>)
    ensures
        rows_view(out@) == level_output(f@),
{
    let mut results = clone_rows(&f.results);
    let empty = f.ctx.data.is_empty();
    proof {
        lemma_texts_empty(&f.ctx.data, empty);
    }
    if !empty {
        let ghost before = results@;
        let d = f.ctx.data.clone_map();
        let ghost dv = d.texts();
        results.push(d);
        assert(rows_view(results@) =~= rows_view(before).push(dv));
    }
    results
}

/// Appends the rows that container row `row` yields through a sub-sequence
/// run that output `out`.
fn append_merged(results: &mut Vec<StrMap<String>>, row: &StrMap<String>, out: &Vec<StrMap<String>>)
    ensures
        rows_view(final(results)@) == rows_view(old(results)@) + merge_rows(row.texts(), rows_view(out@)),
{
    let ghost ov = rows_view(out@);
    if out.len() == 0 {
        let ghost before = results@;
        let c = row.clone_map();
        results.push(c);
        assert(rows_view(results@) =~= rows_view(before) + seq![row.texts()]);
        return;
    }
    let ghost start = rows_view(results@);
    let ghost merged = merge_rows(row.texts(), ov);
    let mut i: usize = 0;
    while i < out.len()
        invariant
            i <= out@.len(),
            out@.len() > 0,
            ov == rows_view(out@),
            merged == merge_rows(row.texts(), ov),
            rows_view(results@) == start + merged.subrange(0, i as int),
        decreases out@.len() - i,
    {
        let ghost before = results@;
        let mut m = out[i].clone_map();
        m.fill_from(row);
        proof {
            lemma_text_map_union(row@, out@[i as int]@);
            assert(m.texts() == merged[i as int]);
        }
        results.push(m);
        assert(rows_view(results@) =~= rows_view(before).push(merged[i as int]));
        assert(merged.subrange(0, i + 1) =~= merged.subrange(0, i as int).push(merged[i as int]));
        i = i + 1;
    }
    assert(merged.subrange(0, out@.len() as int) =~= merged);
}

impl Runner {
    /// The sequence being run.
    pub closed spec fn root(self) -> Sequence {
        self.root
    }

    /// A run of `seq` in context `ctx`.
    pub fn new(seq: Sequence, ctx: ExecContext) -> (r: Runner)
        ensures
            r.root() == seq,
            r@ == (RunnerV {
                frames: seq![FrameV {
                    pos: 0,
                    bindings: ctx.bindings.texts(),
                    data: ctx.data.texts(),
                    results: Seq::empty(),
                    page: None,
                    rows: Seq::empty(),
                    row: 0,
                    in_sub: false,
                }],
                waiting: None,
                done: false,
                inner: None,
            }),
            run_wf(r.root(), r@),
    {
        let f = Frame {
            pos: 0,
            ctx,
            results: Vec::new(),
            page: None,
            rows: Vec::new(),
            row: 0,
            in_sub: false,
        };
        let mut frames: Vec<Frame> = Vec::new();
        frames.push(f);
        let r = Runner { root: seq, frames, waiting: None, done: false, inner: None };
        proof {
            reveal(frames_ok);
            let fv = frames_view(r.frames@);
            assert(rows_view(Seq::<StrMap<String>>::empty()) =~= Seq::empty());
            assert(poses(fv, 0) =~= Seq::<int>::empty());
            assert(r@.frames =~= seq![FrameV {
                pos: 0,
                bindings: r.frames@[0].ctx.bindings.texts(),
                data: r.frames@[0].ctx.data.texts(),
                results: Seq::empty(),
                page: None,
                rows: Seq::empty(),
                row: 0,
                in_sub: false,
            }]);
        }
        r
    }

    /// One move of a run that does not wait for a reply; `stop` is the
    /// state of the stop flag.
    #[verifier::rlimit(60)]
    pub fn advance(&mut self, stop: bool) -> (p: Progress)
        requires
            run_wf(old(self).root(), old(self)@),
            old(self)@.waiting is None,
            !old(self)@.done,
        ensures
            final(self).root() == old(self).root(),
            final(self)@ == advance_spec(old(self).root(), old(self)@, stop).0,
            p@ == advance_spec(old(self).root(), old(self)@, stop).1,
            run_wf(final(self).root(), final(self)@),
    {
        if self.inner.is_some() {
            return self.advance_inner(stop);
        }
        let ghost s0 = self@;
        let ghost root = self.root;
        let ghost fr = s0.frames;
        let n = self.frames.len();
        proof {
            assert(fr == frames_view(self.frames@));
            lemma_frames_facts(root, fr);
        }
        let sq = seq_at_level(&self.root, &self.frames, n - 1);
        assert(*sq == level_seq(root, fr, n - 1));
        let ghost f0 = fr[n - 1];
        assert(f0 == self.frames@[n - 1]@);
        if self.frames[n - 1].in_sub {
            let row = self.frames[n - 1].row;
            if row < self.frames[n - 1].rows.len() {
                if stop {
                    self.done = true;
                    return Progress::Failed(RunError::Stopped { sequence: sq.sequence_name.clone() });
                }
                let mut b = self.frames[n - 1].ctx.bindings.clone_map();
                proof {
                    lemma_text_map_union(b@, self.frames@[n - 1].rows@[row as int]@);
                }
                b.extend_from(&self.frames[n - 1].rows[row]);
                let nf = Frame {
                    pos: 0,
                    ctx: ExecContext { bindings: b, data: StrMap::new() },
                    results: Vec::new(),
                    page: None,
                    rows: Vec::new(),
                    row: 0,
                    in_sub: false,
                };
                let ghost nfv = nf@;
                proof {
                    assert(rows_view(Seq::<StrMap<String>>::empty()) =~= Seq::empty());
                    assert(text_map(Map::<Seq<char>, String>::empty()) =~= Map::empty());
                    assert(nfv == sub_frame(f0.bindings, f0.rows[f0.row]));
                }
                self.frames.push(nf);
                proof {
                    assert(frames_view(self.frames@) =~= fr.push(nfv));
                    lemma_push_frame(root, fr, nfv);
                }
                return Progress::Busy;
            }
            let len = sq.step_sequence.len();
            let mut f = self.frames.pop().unwrap();
            assert(f.pos < len);
            f.in_sub = false;
            f.rows = Vec::new();
            f.row = 0;
            f.pos = f.pos + 1;
            let ghost fv = f@;
            self.frames.push(f);
            proof {
                assert(rows_view(Seq::<StrMap<String>>::empty()) =~= Seq::empty());
                assert(frames_view(self.frames@) =~= fr.update(n - 1, fv));
                lemma_update_top(root, fr, fv);
            }
            return Progress::Busy;
        }
        let pos = self.frames[n - 1].pos;
        if pos >= sq.step_sequence.len() {
            if n == 1 {
                self.done = true;
                let out = frame_output_copy(&self.frames[0]);
                return Progress::Finished(out);
            }
            let f = self.frames.pop().unwrap();
            let out = frame_output(f);
            let mut p = self.frames.pop().unwrap();
            let ghost pv0 = p@;
            assert(fr[n - 2] == pv0);
            let rl = p.rows.len();
            assert(p.row < rl);
            append_merged(&mut p.results, &p.rows[p.row], &out);
            p.row = p.row + 1;
            let ghost pv = p@;
            self.frames.push(p);
            proof {
                assert(fr[n - 2] == pv0);
                assert(frames_view(self.frames@) =~= fr.drop_last().update(n - 2, pv));
                lemma_pop_frame(root, fr, pv);
            }
            return Progress::Busy;
        }
        if stop {
            self.done = true;
            return Progress::Failed(RunError::Stopped { sequence: sq.sequence_name.clone() });
        }
        match &sq.step_sequence[pos] {
            Handler::Item(Step::Act(a)) => {
                let st = start_action(a, &self.frames[n - 1].ctx);
                match st {
                    ActStep::Issue(c, pend) => {
                        self.waiting = Some(pend);
                        proof {
                            assert(frames_view(self.frames@) == fr);
                        }
                        Progress::Issue(c, Scope::Document)
                    },
                    ActStep::Complete(pg) => {
                        let mut f = self.frames.pop().unwrap();
                        f.pos = f.pos + 1;
                        match pg {
                            Some(page) => {
                                f.page = Some(page);
                            },
                            None => {},
                        }
                        let ghost fv = f@;
                        self.frames.push(f);
                        proof {
                            assert(frames_view(self.frames@) =~= fr.update(n - 1, fv));
                            lemma_update_top(root, fr, fv);
                        }
                        Progress::Busy
                    },
                    ActStep::Fail(e) => {
                        self.done = true;
                        Progress::Failed(e)
                    },
                }
            },
            Handler::Item(Step::Extract(e)) => {
                let r = match &self.frames[n - 1].page {
                    None => None,
                    Some(pg) => Some(e.execute_html(pg, &self.frames[n - 1].ctx)),
                };
                match r {
                    None => {
                        let mut f = self.frames.pop().unwrap();
                        f.pos = f.pos + 1;
                        let ghost fv = f@;
                        self.frames.push(f);
                        proof {
                            assert(frames_view(self.frames@) =~= fr.update(n - 1, fv));
                            lemma_update_top(root, fr, fv);
                        }
                        Progress::Busy
                    },
                    Some(Ok(data)) => {
                        let mut f = self.frames.pop().unwrap();
                        proof {
                            lemma_text_map_union(f.ctx.bindings@, data@);
                            lemma_text_map_union(f.ctx.data@, data@);
                        }
                        f.ctx.bindings.extend_from(&data);
                        f.ctx.data.extend_from(&data);
                        f.pos = f.pos + 1;
                        let ghost fv = f@;
                        self.frames.push(f);
                        proof {
                            assert(frames_view(self.frames@) =~= fr.update(n - 1, fv));
                            lemma_update_top(root, fr, fv);
                        }
                        Progress::Busy
                    },
                    Some(Err(b)) => {
                        self.done = true;
                        Progress::Failed(RunError::InvalidSelector { selector: b.selector })
                    },
                }
            },
            Handler::Container { selector, steps, dedup } => {
                let r = match &self.frames[n - 1].page {
                    None => None,
                    Some(pg) => {
                        let out = run_container(pg, selector, steps, *dedup, &sq.target_data, &self.frames[n - 1].ctx);
                        let acting = if out.is_ok() && has_act_step(steps) {
                            let sel = selector.resolve(Some(&self.frames[n - 1].ctx));
                            let count = pg.count(sel);
                            Some(Inner { selector: sel.to_string(), count, elem: 0, step: 0 })
                        } else {
                            None
                        };
                        Some((out, acting))
                    },
                };
                match r {
                    None => {
                        self.done = true;
                        Progress::Failed(RunError::NoPage)
                    },
                    Some((Ok(rows), acting)) => {
                        let mut f = self.frames.pop().unwrap();
                        f.results = rows;
                        let go_on = acting.is_none();
                        if go_on {
                            f.pos = f.pos + 1;
                        }
                        let ghost fv = f@;
                        self.frames.push(f);
                        self.inner = acting;
                        proof {
                            assert(frames_view(self.frames@) =~= fr.update(n - 1, fv));
                            lemma_update_top(root, fr, fv);
                        }
                        Progress::Busy
                    },
                    Some((Err(b), _)) => {
                        self.done = true;
                        Progress::Failed(RunError::InvalidSelector { selector: b.selector })
                    },
                }
            },
            Handler::SubSequence(_) => {
                let Frame { pos, ctx, results, page, .. } = self.frames.pop().unwrap();
                let f = Frame { pos, ctx, results: Vec::new(), page, rows: results, row: 0, in_sub: true };
                let ghost fv = f@;
                self.frames.push(f);
                proof {
                    assert(rows_view(Seq::<StrMap<String>>::empty()) =~= Seq::empty());
                    assert(frames_view(self.frames@) =~= fr.update(n - 1, fv));
                    lemma_update_top(root, fr, fv);
                }
                Progress::Busy
            },
        }
    }

    /// One move of a container working through its action steps.
    fn advance_inner(&mut self, stop: bool) -> (p: Progress)
        requires
            run_wf(old(self).root(), old(self)@),
            old(self)@.waiting is None,
            !old(self)@.done,
            old(self)@.inner is Some,
        ensures
            final(self).root() == old(self).root(),
            final(self)@ == inner_advance(old(self).root(), old(self)@, stop).0,
            p@ == inner_advance(old(self).root(), old(self)@, stop).1,
            run_wf(final(self).root(), final(self)@),
    {
        let ghost s0 = self@;
        let ghost root = self.root;
        let ghost fr = s0.frames;
        let n = self.frames.len();
        proof {
            assert(fr == frames_view(self.frames@));
            lemma_frames_facts(root, fr);
        }
        let sq = seq_at_level(&self.root, &self.frames, n - 1);
        assert(*sq == level_seq(root, fr, n - 1));
        let pos = self.frames[n - 1].pos;
        let c = self.inner.take().unwrap();
        let ghost cv = c@;
        match &sq.step_sequence[pos] {
            Handler::Container { steps, .. } => {
                if stop {
                    self.inner = Some(c);
                    self.done = true;
                    return Progress::Failed(RunError::Stopped { sequence: sq.sequence_name.clone() });
                }
                if c.elem >= c.count {
                    let len = sq.step_sequence.len();
                    assert(pos < len);
                    let mut f = self.frames.pop().unwrap();
                    f.pos = f.pos + 1;
                    let ghost fv = f@;
                    self.frames.push(f);
                    proof {
                        assert(frames_view(self.frames@) =~= fr.update(n - 1, fv));
                        lemma_update_top(root, fr, fv);
                    }
                    return Progress::Busy;
                }
                if c.step >= steps.len() {
                    self.inner = Some(Inner { selector: c.selector, count: c.count, elem: c.elem + 1, step: 0 });
                    return Progress::Busy;
                }
                match &steps[c.step] {
                    Step::Extract(_) => {
                        self.inner = Some(Inner { step: c.step + 1, ..c });
                        Progress::Busy
                    },
                    Step::Act(a) => {
                        match start_action(a, &self.frames[n - 1].ctx) {
                            ActStep::Issue(cmd, pend) => {
                                let scope = Scope::Element { selector: c.selector.clone(), index: c.elem };
                                self.inner = Some(c);
                                self.waiting = Some(pend);
                                Progress::Issue(cmd, scope)
                            },
                            ActStep::Complete(_) => {
                                self.inner = Some(Inner { step: c.step + 1, ..c });
                                Progress::Busy
                            },
                            ActStep::Fail(e) => {
                                self.inner = Some(c);
                                self.done = true;
                                Progress::Failed(e)
                            },
                        }
                    },
                }
            },
            _ => {
                proof {
                    assert(false);
                }
                self.inner = Some(c);
                Progress::Busy
            },
        }
    }

    /// Whether `r` is an answer of the kind the run waits for.
    pub fn accepts(&self, r: &Reply) -> (b: bool)
        ensures
            b == (self@.waiting matches Some(p) && reply_fits(p, r@)),
    {
        match &self.waiting {
            Some(p) => fits(p, r),
            None => false,
        }
    }

    /// The move of a run on the browser's answer `r` to the command it
    /// waits on.
    pub fn reply(&mut self, r: Reply) -> (p: Progress)
        requires
            run_wf(old(self).root(), old(self)@),
            old(self)@.waiting is Some,
            !old(self)@.done,
            reply_fits(old(self)@.waiting->0, r@),
        ensures
            final(self).root() == old(self).root(),
            final(self)@ == reply_spec(old(self)@, r@).0,
            p@ == reply_spec(old(self)@, r@).1,
            run_wf(final(self).root(), final(self)@),
    {
        let ghost s0 = self@;
        let ghost root = self.root;
        let ghost fr = s0.frames;
        let n = self.frames.len();
        proof {
            assert(fr == frames_view(self.frames@));
            lemma_frames_facts(root, fr);
        }
        let mut w: Option<Pending> = None;
        std::mem::swap(&mut w, &mut self.waiting);
        let pend = match w {
            Some(x) => x,
            None => {
                proof {
                    assert(false);
                }
                return Progress::Busy;
            },
        };
        match resume_action(pend, r) {
            ActStep::Issue(c, p2) => {
                self.waiting = Some(p2);
                let scope = match &self.inner {
                    Some(ci) => Scope::Element { selector: ci.selector.clone(), index: ci.elem },
                    None => Scope::Document,
                };
                Progress::Issue(c, scope)
            },
            ActStep::Complete(pg) => {
                if self.inner.is_some() {
                    let sq = seq_at_level(&self.root, &self.frames, n - 1);
                    let pos = self.frames[n - 1].pos;
                    let mut ci = self.inner.take().unwrap();
                    match &sq.step_sequence[pos] {
                        Handler::Container { steps, .. } => {
                            assert(ci.step < steps.len());
                        },
                        _ => {
                            assert(false);
                        },
                    }
                    ci.step = ci.step + 1;
                    self.inner = Some(ci);
                    return Progress::Busy;
                }
                let sq = seq_at_level(&self.root, &self.frames, n - 1);
                let len = sq.step_sequence.len();
                let mut f = self.frames.pop().unwrap();
                assert(f.pos < len);
                f.pos = f.pos + 1;
                match pg {
                    Some(page) => {
                        f.page = Some(page);
                    },
                    None => {},
                }
                let ghost fv = f@;
                self.frames.push(f);
                proof {
                    assert(frames_view(self.frames@) =~= fr.update(n - 1, fv));
                    lemma_update_top(root, fr, fv);
                }
                Progress::Busy
            },
            ActStep::Fail(e) => {
                self.done = true;
                Progress::Failed(e)
            },
        }
    }

    /// Whether the run waits for a reply.
    pub fn is_waiting(&self) -> (b: bool)
        ensures
            b == self@.waiting is Some,
    {
        self.waiting.is_some()
    }

    /// Whether the run has finished or failed.
    pub fn is_done(&self) -> (b: bool)
        ensures
            b == self@.done,
    {
        self.done
    }

    /// The bindings and data of the outermost level.
    pub fn context(&self) -> (c: &ExecContext)
        requires
            self@.frames.len() >= 1,
        ensures
            c.bindings.texts() == self@.frames[0].bindings,
            c.data.texts() == self@.frames[0].data,
    {
        &self.frames[0].ctx
    }
}

/// A finished level hands up all its results, in order, and then, when
/// it collected any data, that data as one more row, whatever its other
/// results are; with no data it hands up just its results.
pub proof fn law_level_output_keeps_data(f: FrameV)
    ensures
        f.data != Map::<Seq<char>, Seq<char>>::empty() ==> {
            &&& level_output(f).len() == f.results.len() + 1
            &&& level_output(f).last() == f.data
            &&& level_output(f).take(f.results.len() as int) == f.results
        },
        f.data == Map::<Seq<char>, Seq<char>>::empty() ==> level_output(f) == f.results,
{
    if f.data != Map::<Seq<char>, Seq<char>>::empty() {
        assert(level_output(f).take(f.results.len() as int) =~= f.results);
    }
}

/// When the top level of a run has gone through all its handlers, the run
/// finishes with the level's results followed by its collected data as
/// the last row (when it collected any).
pub proof fn law_finished_run_rows(root: Sequence, s: RunnerV, stop: bool)
    requires
        s.inner is None,
        s.frames.len() == 1,
        !s.frames[0].in_sub,
        s.frames[0].pos >= level_seq(root, s.frames, 0).step_sequence@.len(),
    ensures
        ({
            let f = s.frames[0];
            &&& advance_spec(root, s, stop).0.done
            &&& advance_spec(root, s, stop).1 matches ProgressV::Finished(rows) && {
                &&& f.data != Map::<Seq<char>, Seq<char>>::empty() ==> rows.len() == f.results.len() + 1
                    && rows.last() == f.data && rows.take(f.results.len() as int) == f.results
                &&& f.data == Map::<Seq<char>, Seq<char>>::empty() ==> rows == f.results
            }
        }),
{
    law_level_output_keeps_data(s.frames[0]);
}

/// A sub-sequence run for a container row starts a fresh level in which
/// every field of the row is bound to the row's value (the row wins over
/// the bindings around it), every other binding around it stays, and no
/// other name is bound.
pub proof fn law_sub_level_binds_row(root: Sequence, s: RunnerV, stop: bool)
    requires
        s.inner is None,
        s.frames.len() >= 1,
        s.frames.last().in_sub,
        s.frames.last().row < s.frames.last().rows.len(),
        !stop,
    ensures
        ({
            let f = s.frames.last();
            let row = f.rows[f.row];
            let t = advance_spec(root, s, stop).0;
            let g = t.frames.last();
            &&& advance_spec(root, s, stop).1 == ProgressV::Busy
            &&& t.frames.len() == s.frames.len() + 1
            &&& t.frames.drop_last() == s.frames
            &&& forall|k: Seq<char>| #[trigger] row.contains_key(k) ==> g.bindings.contains_key(k) && g.bindings[k] == row[k]
            &&& forall|k: Seq<char>|
                !row.contains_key(k) && #[trigger] f.bindings.contains_key(k) ==> g.bindings.contains_key(k)
                    && g.bindings[k] == f.bindings[k]
            &&& forall|k: Seq<char>|
                #[trigger] g.bindings.contains_key(k) ==> row.contains_key(k) || f.bindings.contains_key(k)
            &&& g.pos == 0 && g.data == Map::<Seq<char>, Seq<char>>::empty() && g.results.len() == 0
            &&& !g.in_sub && g.page is None
        }),
{
    let f = s.frames.last();
    let t = advance_spec(root, s, stop).0;
    assert(t.frames.drop_last() =~= s.frames);
}

} // verus!
