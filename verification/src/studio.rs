//! The workspace of the sequence editor: the workflow being edited, the
//! lists of main and sub-sequences, and the rules that keep them apart.
use vstd::prelude::*;
use crate::editor::{closed, editor_next, is_default_action, keys_of_sequence, mappings_from, with_mappings_applied, ContainerField, EditorMsg, EditorState};
use crate::palette::{is_template, PaletteKind};
use crate::keys::{contains_str, extract_binding_keys_from_sequence, free_keys, handlers_scan, strictly_sorted, strs};
use crate::map::{entries_map, keys_distinct, lemma_entries_map_prefix, StrMap};
use crate::sequence_file::{SequenceFile, SequenceFileV};
use crate::test_input::{kept_values, TestInputMsg, TestInputState, TestInputV};
use crate::text::{chars_of, dec_string, push_char, str_eq, string_of_range, usize_to_string};
use crate::workflow::{
    clone_handler, clone_handlers, clone_strings, lemma_same_handler_trans, same_handler, Extraction, Handler, Sequence, Step,
};

verus! {

/// Which list a sequence belongs to.
#[derive(Debug, Clone, Copy, PartialEq, Eq, Structural)]
pub enum SequenceType {
    Main,
    Sub,
}

impl SequenceType {
    /// The label the editor shows.
    pub fn label(&self) -> (r: &'static str)
        ensures
            r@ == match *self {
                SequenceType::Main => "🏠 Main"@,
                SequenceType::Sub => "🔗 Sub"@,
            },
    {
        match self {
            SequenceType::Main => "🏠 Main",
            SequenceType::Sub => "🔗 Sub",
        }
    }

    /// The name used in log lines.
    pub open spec fn name_spec(self) -> Seq<char> {
        match self {
            SequenceType::Main => "Main"@,
            SequenceType::Sub => "Sub"@,
        }
    }

    /// The name used in log lines.
    pub fn name(&self) -> (r: &'static str)
        ensures
            r@ == self.name_spec(),
    {
        match self {
            SequenceType::Main => "Main",
            SequenceType::Sub => "Sub",
        }
    }
}

impl Default for SequenceType {
    fn default() -> (t: Self)
        ensures
            t == SequenceType::Main,
    {
        SequenceType::Main
    }
}

/// The kind of browser a run uses.
#[derive(Debug, Clone, Copy, PartialEq, Eq, Structural)]
pub enum BrowserType {
    Desktop,
    Mobile,
}

impl BrowserType {
    /// The label the editor shows.
    pub fn label(&self) -> (r: &'static str)
        ensures
            r@ == match *self {
                BrowserType::Desktop => "Desktop"@,
                BrowserType::Mobile => "Mobile"@,
            },
    {
        match self {
            BrowserType::Desktop => "Desktop",
            BrowserType::Mobile => "Mobile",
        }
    }

    /// The device name the browser runner takes.
    pub fn device(&self) -> (r: &'static str)
        ensures
            r@ == match *self {
                BrowserType::Desktop => "desktop"@,
                BrowserType::Mobile => "mobile"@,
            },
    {
        match self {
            BrowserType::Desktop => "desktop",
            BrowserType::Mobile => "mobile",
        }
    }
}

impl Default for BrowserType {
    fn default() -> (t: Self)
        ensures
            t == BrowserType::Desktop,
    {
        BrowserType::Desktop
    }
}

// ---------------------------------------------------------------------
// Names
// ---------------------------------------------------------------------

/// `base` numbered: `{base}_{i}`.
pub open spec fn numbered(base: Seq<char>, i: nat) -> Seq<char> {
    base + "_"@ + dec_string(i)
}

/// The first `i` from `from` up to 100 whose numbered name is free, or 101.
pub open spec fn first_free(base: Seq<char>, existing: Seq<Seq<char>>, from: nat) -> nat
    decreases 101 - from,
{
    if from > 100 {
        101
    } else if !existing.contains(numbered(base, from)) {
        from
    } else {
        first_free(base, existing, from + 1)
    }
}

/// `base` when free, else `base` numbered by the first free number from 1
/// (trying up to 100; 101 after that).
pub open spec fn unique_name_spec(base: Seq<char>, existing: Seq<Seq<char>>) -> Seq<char> {
    if !existing.contains(base) {
        base
    } else {
        numbered(base, first_free(base, existing, 1))
    }
}

proof fn lemma_first_free(base: Seq<char>, existing: Seq<Seq<char>>, from: nat)
    requires
        1 <= from <= 101,
    ensures
        from <= first_free(base, existing, from) <= 101,
        first_free(base, existing, from) <= 100 ==> !existing.contains(
            numbered(base, first_free(base, existing, from)),
        ),
        first_free(base, existing, from) == 101 ==> forall|i: nat|
            from <= i <= 100 ==> existing.contains(#[trigger] numbered(base, i)),
    decreases 101 - from,
{
    if from <= 100 && existing.contains(numbered(base, from)) {
        lemma_first_free(base, existing, from + 1);
    }
}

/// The name `unique_name` gives is not among the existing ones, unless the
/// base and all its numbered forms up to 101 are taken.
pub proof fn law_unique_name_is_fresh(base: Seq<char>, existing: Seq<Seq<char>>)
    requires
        !existing.contains(base) || exists|i: nat| 1 <= i <= 101 && !existing.contains(#[trigger] numbered(base, i)),
    ensures
        !existing.contains(unique_name_spec(base, existing)),
{
    if existing.contains(base) {
        lemma_first_free(base, existing, 1);
        let n = first_free(base, existing, 1);
        if n == 101 {
            let i = choose|i: nat| 1 <= i <= 101 && !existing.contains(#[trigger] numbered(base, i));
            if i <= 100 {
                assert(existing.contains(numbered(base, i)));
            }
        }
    }
}

fn numbered_name(base: &str, i: usize) -> (r: String)
    ensures
        r@ == numbered(base@, i as nat),
{
    let mut r = String::from_str(base);
    r.append("_");
    let d = usize_to_string(i);
    r.append(d.as_str());
    r
}

/// A name not among `existing`: `base` itself, else `{base}_{n}` for the
/// first free `n` from 1; after 100 tries, `{base}_101`.
pub fn unique_name(base: &str, existing: &Vec<String>) -> (r: String)
    ensures
        r@ == unique_name_spec(base@, strs(existing@)),
{
    if !contains_str(existing, base) {
        return String::from_str(base);
    }
    let mut counter: usize = 1;
    while counter <= 100
        invariant
            1 <= counter <= 101,
            strs(existing@).contains(base@),
            first_free(base@, strs(existing@), counter as nat) == first_free(base@, strs(existing@), 1),
        decreases 101 - counter,
    {
        let name = numbered_name(base, counter);
        if !contains_str(existing, name.as_str()) {
            assert(first_free(base@, strs(existing@), counter as nat) == counter as nat);
            return name;
        }
        counter = counter + 1;
    }
    numbered_name(base, counter)
}

// ---------------------------------------------------------------------
// The workflow
// ---------------------------------------------------------------------

/// Two lists of handlers with the same content.
pub open spec fn same_handlers(a: Seq<Handler>, b: Seq<Handler>) -> bool {
    &&& a.len() == b.len()
    &&& forall|i: int| 0 <= i < a.len() ==> same_handler(#[trigger] a[i], b[i])
}

/// A sequence named `name` made of copies of `handlers`, with no fixed
/// data and no metadata.
pub open spec fn built_from(s: Sequence, name: Seq<char>, handlers: Seq<Handler>) -> bool {
    &&& s.sequence_name@ == name
    &&& same_handlers(s.step_sequence@, handlers)
    &&& s.target_data@ == Map::<Seq<char>, String>::empty()
    &&& s.metadata@.len() == 0
}

/// A sequence named `name` made of copies of `handlers`.
pub fn build_sequence(name: &str, handlers: &Vec<Handler>) -> (s: Sequence)
    ensures
        built_from(s, name@, handlers@),
{
    Sequence {
        sequence_name: String::from_str(name),
        step_sequence: clone_handlers(handlers),
        target_data: StrMap::new(),
        metadata: Vec::new(),
    }
}

/// The position of the first container among `w[i..]`.
pub open spec fn first_container_from(w: Seq<Handler>, i: int) -> Option<int>
    decreases w.len() - i,
{
    if i < 0 || i >= w.len() {
        None
    } else if w[i] is Container {
        Some(i)
    } else {
        first_container_from(w, i + 1)
    }
}

/// The position of the first container of the workflow.
pub fn first_container(w: &Vec<Handler>) -> (r: Option<usize>)
    ensures
        match r {
            Some(i) => first_container_from(w@, 0) == Some(i as int),
            None => first_container_from(w@, 0) is None,
        },
{
    let mut i: usize = 0;
    while i < w.len()
        invariant
            i <= w@.len(),
            first_container_from(w@, i as int) == first_container_from(w@, 0),
        decreases w@.len() - i,
    {
        if let Handler::Container { .. } = &w[i] {
            return Some(i);
        }
        i = i + 1;
    }
    None
}

/// Whether the workflow holds a container.
pub fn has_any_container(w: &Vec<Handler>) -> (b: bool)
    ensures
        b == first_container_from(w@, 0) is Some,
{
    first_container(w).is_some()
}

/// Whether position `index` comes after the first container.
pub open spec fn below_first_container(w: Seq<Handler>, index: int) -> bool {
    match first_container_from(w, 0) {
        Some(c) => index > c,
        None => false,
    }
}

/// Whether position `index` comes after the first container.
pub fn is_below_first_container(w: &Vec<Handler>, index: usize) -> (b: bool)
    ensures
        b == below_first_container(w@, index as int),
{
    match first_container(w) {
        Some(c) => index > c,
        None => false,
    }
}

/// The position of the last container before `before`.
pub open spec fn previous_container(w: Seq<Handler>, before: int) -> Option<int>
    decreases before,
{
    if before <= 0 {
        None
    } else if before - 1 < w.len() && w[before - 1] is Container {
        Some(before - 1)
    } else {
        previous_container(w, before - 1)
    }
}

proof fn lemma_previous_container(w: Seq<Handler>, before: int)
    ensures
        previous_container(w, before) matches Some(i) ==> 0 <= i < w.len() && i < before && w[i] is Container,
    decreases before,
{
    if before > 0 {
        lemma_previous_container(w, before - 1);
    }
}

/// The position of the last container before `before`.
pub fn find_previous_container(w: &Vec<Handler>, before: usize) -> (r: Option<usize>)
    ensures
        match r {
            Some(i) => previous_container(w@, before as int) == Some(i as int),
            None => previous_container(w@, before as int) is None,
        },
{
    let mut i: usize = before;
    while i > 0
        invariant
            i <= before,
            previous_container(w@, i as int) == previous_container(w@, before as int),
        decreases i,
    {
        if i - 1 < w.len() {
            if let Handler::Container { .. } = &w[i - 1] {
                return Some(i - 1);
            }
        }
        i = i - 1;
    }
    None
}

/// The field and kind label an extraction offers as a container output.
pub open spec fn field_entry(e: Extraction) -> (Seq<char>, Seq<char>) {
    match e {
        Extraction::Text { field_name, .. } => (field_name.value@, "Text"@),
        Extraction::Attribute { field_name, attr_str, .. } => (field_name.value@, "Attr:"@ + attr_str.value@),
        Extraction::Count { field_name, .. } => (field_name.value@, "Count"@),
        Extraction::Exists { field_name, .. } => (field_name.value@, "Exists"@),
        Extraction::MultipleText { field_name, .. } => (field_name.value@, "MultiText"@),
    }
}

/// The outputs of the extraction steps among `steps[..n]` that name a field.
pub open spec fn step_fields(steps: Seq<Step>, n: int) -> Seq<(Seq<char>, Seq<char>)>
    decreases n,
{
    if n <= 0 || n > steps.len() {
        Seq::empty()
    } else {
        step_fields(steps, n - 1) + match steps[n - 1] {
            Step::Extract(e) => if field_entry(e).0.len() > 0 {
                seq![field_entry(e)]
            } else {
                Seq::<(Seq<char>, Seq<char>)>::empty()
            },
            Step::Act(_) => Seq::<(Seq<char>, Seq<char>)>::empty(),
        }
    }
}

/// The fields a sub-sequence at `before` can map from: `_index`, then the
/// named outputs of the last container before it.
pub open spec fn container_fields_before(w: Seq<Handler>, before: int) -> Seq<(Seq<char>, Seq<char>)> {
    seq![("_index"@, "Auto"@)] + match previous_container(w, before) {
        Some(c) => match w[c] {
            Handler::Container { steps, .. } => step_fields(steps@, steps@.len() as int),
            _ => Seq::empty(),
        },
        None => Seq::empty(),
    }
}

/// A container field as its name and kind.
pub open spec fn field_view(f: ContainerField) -> (Seq<char>, Seq<char>) {
    (f.field_name@, f.extraction_type@)
}

fn field_of(e: &Extraction) -> (r: ContainerField)
    ensures
        field_view(r) == field_entry(*e),
{
    match e {
        Extraction::Text { field_name, .. } => ContainerField {
            field_name: field_name.value.clone(),
            extraction_type: String::from_str("Text"),
        },
        Extraction::Attribute { field_name, attr_str, .. } => {
            let mut t = String::from_str("Attr:");
            t.append(attr_str.value.as_str());
            ContainerField { field_name: field_name.value.clone(), extraction_type: t }
        },
        Extraction::Count { field_name, .. } => ContainerField {
            field_name: field_name.value.clone(),
            extraction_type: String::from_str("Count"),
        },
        Extraction::Exists { field_name, .. } => ContainerField {
            field_name: field_name.value.clone(),
            extraction_type: String::from_str("Exists"),
        },
        Extraction::MultipleText { field_name, .. } => ContainerField {
            field_name: field_name.value.clone(),
            extraction_type: String::from_str("MultiText"),
        },
    }
}

/// The fields a sub-sequence at `before` can map from.
pub fn find_previous_container_fields(w: &Vec<Handler>, before: usize) -> (r: Vec<ContainerField>)
    ensures
        r@.map_values(|f: ContainerField| field_view(f)) == container_fields_before(w@, before as int),
{
    let mut r: Vec<ContainerField> = Vec::new();
    r.push(ContainerField { field_name: String::from_str("_index"), extraction_type: String::from_str("Auto") });
    let ghost head = seq![("_index"@, "Auto"@)];
    assert(r@.map_values(|f: ContainerField| field_view(f)) =~= head);
    match find_previous_container(w, before) {
        Some(c) => {
            proof {
                lemma_previous_container(w@, before as int);
            }
            if let Handler::Container { steps, .. } = &w[c] {
                let mut i: usize = 0;
                while i < steps.len()
                    invariant
                        i <= steps@.len(),
                        r@.map_values(|f: ContainerField| field_view(f)) == head + step_fields(steps@, i as int),
                    decreases steps@.len() - i,
                {
                    let ghost before_r = r@.map_values(|f: ContainerField| field_view(f));
                    if let Step::Extract(e) = &steps[i] {
                        let f = field_of(e);
                        if !f.field_name.as_str().is_empty() {
                            r.push(f);
                            assert(r@.map_values(|f: ContainerField| field_view(f)) =~= before_r.push(
                                field_entry(*e),
                            ));
                        } else {
                            assert(r@.map_values(|f: ContainerField| field_view(f)) =~= before_r);
                        }
                    }
                    assert(r@.map_values(|f: ContainerField| field_view(f)) =~= head + step_fields(steps@, i + 1));
                    i = i + 1;
                }
            }
        },
        None => {
            assert(r@.map_values(|f: ContainerField| field_view(f)) =~= head + Seq::empty());
        },
    }
    r
}

// ---------------------------------------------------------------------
// The workspace
// ---------------------------------------------------------------------

/// The editor's workspace: the workflow being edited and its name and
/// list; the main and sub-sequence lists (each a map and its order of
/// names); the handler form; the save-as dialog; the browser controls;
/// the log; and the test inputs.
#[derive(Debug)]
pub struct Workspace {
    pub workflow: Vec<Handler>,
    pub current_sequence_name: Option<String>,
    pub current_sequence_type: SequenceType,
    pub main_sequences: StrMap<Vec<Handler>>,
    pub main_sequence_names: Vec<String>,
    pub sub_sequences: StrMap<Vec<Handler>>,
    pub sub_sequence_names: Vec<String>,
    pub editor: EditorState,
    pub editing_index: Option<usize>,
    pub show_save_as: bool,
    pub save_as_name: String,
    pub save_as_type: SequenceType,
    pub current_file_path: Option<String>,
    pub browser_type: BrowserType,
    pub browser_running: bool,
    pub browser_status: String,
    pub start_url: String,
    pub sequence_running: bool,
    pub last_result: Option<Vec<StrMap<String>>>,
    pub logs: Vec<String>,
    pub test_inputs: TestInputState,
}

/// The lists are as they were.
pub open spec fn same_lists(o: Workspace, n: Workspace) -> bool {
    &&& n.main_sequences == o.main_sequences
    &&& n.main_sequence_names == o.main_sequence_names
    &&& n.sub_sequences == o.sub_sequences
    &&& n.sub_sequence_names == o.sub_sequence_names
}

/// The dialog, file, browser and run state are as they were.
pub open spec fn same_session(o: Workspace, n: Workspace) -> bool {
    &&& n.show_save_as == o.show_save_as
    &&& n.save_as_name == o.save_as_name
    &&& n.save_as_type == o.save_as_type
    &&& n.current_file_path == o.current_file_path
    &&& n.browser_type == o.browser_type
    &&& n.browser_running == o.browser_running
    &&& n.browser_status == o.browser_status
    &&& n.start_url == o.start_url
    &&& n.sequence_running == o.sequence_running
    &&& n.last_result == o.last_result
}

/// The workflow, its name and type, the form and the inputs are as they were.
pub open spec fn same_work(o: Workspace, n: Workspace) -> bool {
    &&& n.workflow == o.workflow
    &&& n.current_sequence_name == o.current_sequence_name
    &&& n.current_sequence_type == o.current_sequence_type
    &&& n.editor == o.editor
    &&& n.editing_index == o.editing_index
    &&& n.test_inputs == o.test_inputs
}

/// The test inputs were parsed again from the handlers `hs`.
pub open spec fn inputs_refreshed(o: TestInputV, n: TestInputV, hs: Seq<Handler>) -> bool {
    &&& strictly_sorted(n.keys)
    &&& forall|x: Seq<char>| n.keys.contains(x) <==> free_keys(hs).contains(x)
    &&& n.values == kept_values(free_keys(hs), o.values)
    &&& n.mapped == handlers_scan(hs, hs.len() as int).1
}

/// The form closed without a handler being edited.
pub open spec fn form_closed(o: Workspace, n: Workspace) -> bool {
    &&& closed(o.editor, n.editor)
    &&& n.editor.handler == o.editor.handler
    &&& n.editing_index is None
}

/// The map of the list of type `t`.
pub open spec fn list_map(w: Workspace, t: SequenceType) -> Map<Seq<char>, Vec<Handler>> {
    match t {
        SequenceType::Main => w.main_sequences@,
        SequenceType::Sub => w.sub_sequences@,
    }
}

/// The names of the list of type `t`, in order.
pub open spec fn list_names(w: Workspace, t: SequenceType) -> Seq<Seq<char>> {
    match t {
        SequenceType::Main => strs(w.main_sequence_names@),
        SequenceType::Sub => strs(w.sub_sequence_names@),
    }
}

/// The list of the other type is as it was.
pub open spec fn other_list_same(o: Workspace, n: Workspace, t: SequenceType) -> bool {
    match t {
        SequenceType::Main => n.sub_sequences == o.sub_sequences && n.sub_sequence_names == o.sub_sequence_names,
        SequenceType::Sub => n.main_sequences == o.main_sequences && n.main_sequence_names == o.main_sequence_names,
    }
}

/// The index of the first occurrence of `x` among `s[i..]`.
pub open spec fn index_from(s: Seq<Seq<char>>, x: Seq<char>, i: int) -> Option<int>
    decreases s.len() - i,
{
    if i < 0 || i >= s.len() {
        None
    } else if s[i] == x {
        Some(i)
    } else {
        index_from(s, x, i + 1)
    }
}

/// The names with the first `old_name` renamed.
pub open spec fn renamed_in(s: Seq<Seq<char>>, old_name: Seq<char>, new_name: Seq<char>) -> Seq<Seq<char>> {
    match index_from(s, old_name, 0) {
        Some(i) => s.update(i, new_name),
        None => s,
    }
}

/// The names without any `x`.
pub open spec fn without(s: Seq<Seq<char>>, x: Seq<char>) -> Seq<Seq<char>>
    decreases s.len(),
{
    if s.len() == 0 {
        s
    } else if s.last() == x {
        without(s.drop_last(), x)
    } else {
        without(s.drop_last(), x).push(s.last())
    }
}

proof fn lemma_index_from(s: Seq<Seq<char>>, x: Seq<char>, i: int)
    requires
        0 <= i,
    ensures
        index_from(s, x, i) matches Some(j) ==> i <= j < s.len() && s[j] == x,
    decreases s.len() - i,
{
    if i < s.len() {
        lemma_index_from(s, x, i + 1);
    }
}

fn position_of(v: &Vec<String>, x: &str) -> (r: Option<usize>)
    ensures
        match r {
            Some(i) => index_from(strs(v@), x@, 0) == Some(i as int) && i < v@.len(),
            None => index_from(strs(v@), x@, 0) is None,
        },
{
    let mut i: usize = 0;
    while i < v.len()
        invariant
            i <= v@.len(),
            index_from(strs(v@), x@, i as int) == index_from(strs(v@), x@, 0),
        decreases v@.len() - i,
    {
        if str_eq(v[i].as_str(), x) {
            proof {
                lemma_index_from(strs(v@), x@, i as int);
            }
            return Some(i);
        }
        i = i + 1;
    }
    None
}

fn remove_all(v: &Vec<String>, x: &str) -> (r: Vec<String>)
    ensures
        strs(r@) == without(strs(v@), x@),
{
    let mut r: Vec<String> = Vec::new();
    let mut i: usize = 0;
    while i < v.len()
        invariant
            i <= v@.len(),
            strs(r@) == without(strs(v@).subrange(0, i as int), x@),
        decreases v@.len() - i,
    {
        let ghost pre = strs(v@).subrange(0, i as int);
        let ghost before = strs(r@);
        assert(strs(v@).subrange(0, i + 1).drop_last() =~= pre);
        assert(strs(v@).subrange(0, i + 1).last() == v@[i as int]@);
        if !str_eq(v[i].as_str(), x) {
            r.push(v[i].clone());
            assert(strs(r@) =~= before.push(v@[i as int]@));
        }
        i = i + 1;
    }
    assert(strs(v@).subrange(0, v@.len() as int) =~= strs(v@));
    r
}

/// What selecting `name` makes of the workspace: a main sequence of that
/// name, else a sub-sequence of it, is copied into the workflow and
/// becomes current; an unknown name changes nothing.
pub open spec fn selected(o: Workspace, name: String, n: Workspace) -> bool {
    if o.main_sequences@.contains_key(name@) || o.sub_sequences@.contains_key(name@) {
        let t = if o.main_sequences@.contains_key(name@) {
            SequenceType::Main
        } else {
            SequenceType::Sub
        };
        &&& same_handlers(n.workflow@, list_map(o, t)[name@]@)
        &&& n.current_sequence_name == Some(name)
        &&& n.current_sequence_type == t
        &&& form_closed(o, n)
        &&& inputs_refreshed(o.test_inputs@, n.test_inputs@, n.workflow@)
        &&& same_lists(o, n)
        &&& same_session(o, n)
        &&& n.logs == o.logs
    } else {
        n == o
    }
}

/// What confirming the save-as dialog makes of the workspace: with a name,
/// a copy of the workflow is stored under it in the list of the chosen
/// type and becomes current; with none, nothing changes.
pub open spec fn saved_as(o: Workspace, n: Workspace) -> bool {
    if o.save_as_name@.len() == 0 {
        n == o
    } else {
        let t = o.save_as_type;
        let name = o.save_as_name@;
        &&& stored(list_map(o, t), list_map(n, t), name, o.workflow@)
        &&& list_names(n, t) == with_name(list_names(o, t), name)
        &&& other_list_same(o, n, t)
        &&& n.current_sequence_name matches Some(c) && c@ == name
        &&& n.current_sequence_type == t
        &&& !n.show_save_as
        &&& n.save_as_name == o.save_as_name
        &&& n.save_as_type == o.save_as_type
        &&& n.workflow == o.workflow
        &&& n.editor == o.editor
        &&& n.editing_index == o.editing_index
        &&& n.test_inputs == o.test_inputs
        &&& strs(n.logs@) == strs(o.logs@).push(saved_as_line(t, name))
    }
}

/// A workflow saved under a name and then selected by that name comes back
/// as copies of the same handlers, unless it was saved as a sub-sequence
/// under a name that a main sequence also has (selection prefers that one).
pub proof fn law_select_after_save(o: Workspace, m: Workspace, name: String, n: Workspace)
    requires
        saved_as(o, m),
        o.save_as_name@.len() > 0,
        name@ == o.save_as_name@,
        o.save_as_type == SequenceType::Main || !o.main_sequences@.contains_key(name@),
        selected(m, name, n),
    ensures
        same_handlers(n.workflow@, o.workflow@),
        n.current_sequence_name == Some(name),
        n.current_sequence_type == o.save_as_type,
{
    let t = o.save_as_type;
    let kept = list_map(m, t)[name@];
    assert(list_map(m, t).contains_key(name@));
    assert forall|i: int| 0 <= i < n.workflow@.len() implies same_handler(
        #[trigger] n.workflow@[i],
        o.workflow@[i],
    ) by {
        lemma_same_handler_trans(n.workflow@[i], kept@[i], o.workflow@[i]);
    }
}

impl Workspace {
    /// An empty workspace: no workflow, empty lists, the form closed, the
    /// desktop browser, and the start page `https://www.google.com`.
    pub fn new() -> (w: Self)
        ensures
            w.workflow@.len() == 0,
            w.current_sequence_name is None,
            w.current_sequence_type == SequenceType::Main,
            w.main_sequences@ == Map::<Seq<char>, Vec<Handler>>::empty(),
            w.main_sequence_names@.len() == 0,
            w.sub_sequences@ == Map::<Seq<char>, Vec<Handler>>::empty(),
            w.sub_sequence_names@.len() == 0,
            !w.editor.is_open,
            w.editing_index is None,
            !w.show_save_as,
            w.save_as_name@.len() == 0,
            w.save_as_type == SequenceType::Main,
            w.current_file_path is None,
            w.browser_type == BrowserType::Desktop,
            !w.browser_running,
            w.browser_status@.len() == 0,
            w.start_url@ == "https://www.google.com"@,
            !w.sequence_running,
            w.last_result is None,
            w.logs@.len() == 0,
            w.test_inputs@.keys.len() == 0,
            w.test_inputs@.values == Map::<Seq<char>, Seq<char>>::empty(),
            w.test_inputs@.mapped.len() == 0,
            w.editor.handler matches Handler::Item(Step::Act(a)) && is_default_action(a, "Click"@),
            w.editor.available_sequences@.len() == 0,
            w.editor.container_fields@.len() == 0,
            w.editor.subsequence_binding_keys@.len() == 0,
            w.editor.input_mappings@.len() == 0,
    {
        Workspace {
            workflow: Vec::new(),
            current_sequence_name: None,
            current_sequence_type: SequenceType::Main,
            main_sequences: StrMap::new(),
            main_sequence_names: Vec::new(),
            sub_sequences: StrMap::new(),
            sub_sequence_names: Vec::new(),
            editor: EditorState::default(),
            editing_index: None,
            show_save_as: false,
            save_as_name: String::new(),
            save_as_type: SequenceType::Main,
            current_file_path: None,
            browser_type: BrowserType::Desktop,
            browser_running: false,
            browser_status: String::new(),
            start_url: String::from_str("https://www.google.com"),
            sequence_running: false,
            last_result: None,
            logs: Vec::new(),
            test_inputs: TestInputState::new(),
        }
    }

    fn refresh_test_inputs(&mut self)
        ensures
            inputs_refreshed(old(self).test_inputs@, final(self).test_inputs@, final(self).workflow@),
            final(self).workflow == old(self).workflow,
            final(self).current_sequence_name == old(self).current_sequence_name,
            final(self).current_sequence_type == old(self).current_sequence_type,
            final(self).editor == old(self).editor,
            final(self).editing_index == old(self).editing_index,
            same_lists(*old(self), *final(self)),
            same_session(*old(self), *final(self)),
            final(self).logs == old(self).logs,
    {
        self.test_inputs.parse_from_workflow(self.workflow.as_slice());
    }

    fn log(&mut self, line: String)
        ensures
            strs(final(self).logs@) == strs(old(self).logs@).push(line@),
            same_work(*old(self), *final(self)),
            same_lists(*old(self), *final(self)),
            same_session(*old(self), *final(self)),
    {
        let ghost before = strs(self.logs@);
        self.logs.push(line);
        assert(strs(self.logs@) =~= before.push(line@));
    }

    /// Loads the sequence named `name` for editing: from the main list when
    /// it is there, else from the sub list; an unknown name changes nothing.
    pub fn select_sequence(&mut self, name: String)
        ensures
            selected(*old(self), name, *final(self)),
    {
        let t;
        let hs = match self.main_sequences.get(name.as_str()) {
            Some(h) => {
                t = SequenceType::Main;
                clone_handlers(h)
            },
            None => match self.sub_sequences.get(name.as_str()) {
                Some(h) => {
                    t = SequenceType::Sub;
                    clone_handlers(h)
                },
                None => {
                    return;
                },
            },
        };
        self.workflow = hs;
        self.current_sequence_name = Some(name);
        self.current_sequence_type = t;
        self.editor.close();
        self.editing_index = None;
        self.refresh_test_inputs();
    }

    /// Starts a new unnamed workflow of type `t`.
    pub fn new_sequence(&mut self, t: SequenceType)
        ensures
            ({
                let o = *old(self);
                let n = *final(self);
                &&& n.workflow@.len() == 0
                &&& n.current_sequence_name is None
                &&& n.current_sequence_type == t
                &&& form_closed(o, n)
                &&& inputs_refreshed(o.test_inputs@, n.test_inputs@, n.workflow@)
                &&& same_lists(o, n)
                &&& same_session(o, n)
                &&& n.logs == o.logs
            }),
    {
        self.workflow = Vec::new();
        self.current_sequence_name = None;
        self.current_sequence_type = t;
        self.editor.close();
        self.editing_index = None;
        self.refresh_test_inputs();
    }

    /// Renames the current sequence: its entry in its list moves to the
    /// new name, and the first occurrence of the old name in the order of
    /// names becomes the new one. Without a current sequence, the workflow
    /// just gets the name.
    pub fn rename_current(&mut self, new_name: String)
        ensures
            ({
                let o = *old(self);
                let n = *final(self);
                &&& n.current_sequence_name == Some(new_name)
                &&& n.workflow == o.workflow
                &&& n.current_sequence_type == o.current_sequence_type
                &&& n.editor == o.editor
                &&& n.editing_index == o.editing_index
                &&& n.test_inputs == o.test_inputs
                &&& same_session(o, n)
                &&& n.logs == o.logs
                &&& match o.current_sequence_name {
                    Some(old_name) => {
                        let t = o.current_sequence_type;
                        &&& list_map(n, t) == if list_map(o, t).contains_key(old_name@) {
                            list_map(o, t).remove(old_name@).insert(new_name@, list_map(o, t)[old_name@])
                        } else {
                            list_map(o, t)
                        }
                        &&& list_names(n, t) == renamed_in(list_names(o, t), old_name@, new_name@)
                        &&& other_list_same(o, n, t)
                    },
                    None => same_lists(o, n),
                }
            }),
    {
        match &self.current_sequence_name {
            Some(old_name) => {
                let old_name = old_name.clone();
                match self.current_sequence_type {
                    SequenceType::Main => {
                        rename_entry(&mut self.main_sequences, &mut self.main_sequence_names, old_name.as_str(), &new_name);
                    },
                    SequenceType::Sub => {
                        rename_entry(&mut self.sub_sequences, &mut self.sub_sequence_names, old_name.as_str(), &new_name);
                    },
                }
            },
            None => {},
        }
        self.current_sequence_name = Some(new_name);
    }
}

/// Moves the entry of `old_name` to `new_name`, and renames the first
/// occurrence of `old_name` in `names`.
fn rename_entry(map: &mut StrMap<Vec<Handler>>, names: &mut Vec<String>, old_name: &str, new_name: &String)
    ensures
        final(map)@ == if old(map)@.contains_key(old_name@) {
            old(map)@.remove(old_name@).insert(new_name@, old(map)@[old_name@])
        } else {
            old(map)@
        },
        strs(final(names)@) == renamed_in(strs(old(names)@), old_name@, new_name@),
{
    match map.remove(old_name) {
        Some(h) => {
            map.insert(new_name.clone(), h);
        },
        None => {
            assert(map@ =~= old(map)@);
        },
    }
    match position_of(names, old_name) {
        Some(i) => {
            names.set(i, new_name.clone());
            assert(strs(names@) =~= strs(old(names)@).update(i as int, new_name@));
        },
        None => {},
    }
}

// ---------------------------------------------------------------------
// Moving, saving, deleting
// ---------------------------------------------------------------------

/// The log line of a rename forced by a name collision.
pub open spec fn renamed_line(from: Seq<char>, to: Seq<char>) -> Seq<char> {
    "📋 Renamed (collision): '"@ + from + "' → '"@ + to + "'"@
}

/// The log line of a sequence moved to the list of type `t`.
pub open spec fn moved_line(name: Seq<char>, t: SequenceType) -> Seq<char> {
    "📋 Moved: '"@ + name + "' → "@ + t.name_spec()
}

/// The log line of a deleted sequence.
pub open spec fn deleted_line(name: Seq<char>) -> Seq<char> {
    "🗑️ Deleted: "@ + name
}

/// The log line of a save-as.
pub open spec fn saved_as_line(t: SequenceType, name: Seq<char>) -> Seq<char> {
    "💾 "@ + t.name_spec() + " saved as: "@ + name
}

/// The map after storing a copy of `hs` under `k`.
pub open spec fn stored(old_map: Map<Seq<char>, Vec<Handler>>, new_map: Map<Seq<char>, Vec<Handler>>, k: Seq<char>, hs: Seq<Handler>) -> bool {
    &&& new_map == old_map.insert(k, new_map[k])
    &&& same_handlers(new_map[k]@, hs)
}

/// The names with `x` added at the end when it is not among them.
pub open spec fn with_name(s: Seq<Seq<char>>, x: Seq<char>) -> Seq<Seq<char>> {
    if s.contains(x) {
        s
    } else {
        s.push(x)
    }
}

fn push_name(names: &mut Vec<String>, x: &String)
    ensures
        strs(final(names)@) == with_name(strs(old(names)@), x@),
{
    if !contains_str(names, x.as_str()) {
        let ghost before = strs(names@);
        names.push(x.clone());
        assert(strs(names@) =~= before.push(x@));
    }
}

fn store_copy(map: &mut StrMap<Vec<Handler>>, k: &String, hs: &Vec<Handler>)
    ensures
        stored(old(map)@, final(map)@, k@, hs@),
{
    let c = clone_handlers(hs);
    map.insert(k.clone(), c);
}

/// Takes the entry `name` out of a list; whether it was there.
fn take_out(map: &mut StrMap<Vec<Handler>>, names: &mut Vec<String>, name: &String) -> (moved: bool)
    ensures
        moved == old(map)@.contains_key(name@),
        moved ==> final(map)@ == old(map)@.remove(name@) && strs(final(names)@) == without(strs(old(names)@), name@),
        !moved ==> final(map)@ == old(map)@ && final(names)@ == old(names)@,
{
    if map.contains_key(name.as_str()) {
        map.remove(name.as_str());
        let r = remove_all(names, name.as_str());
        *names = r;
        true
    } else {
        false
    }
}

/// Builds the sequences of a list: each under its name, with copies of its handlers.
fn sequences_of(m: &StrMap<Vec<Handler>>) -> (r: StrMap<Sequence>)
    ensures
        r@.dom() == m@.dom(),
        forall|k: Seq<char>| #[trigger] r@.contains_key(k) ==> built_from(r@[k], k, m@[k]@),
{
    let ks = m.keys();
    let ghost kv = ks@.map_values(|s: String| s@);
    let mut r: StrMap<Sequence> = StrMap::new();
    let mut i: usize = 0;
    while i < ks.len()
        invariant
            i <= ks@.len(),
            kv == ks@.map_values(|s: String| s@),
            forall|k: Seq<char>| #[trigger] m@.contains_key(k) <==> kv.contains(k),
            forall|k: Seq<char>| #[trigger] r@.contains_key(k) <==> kv.subrange(0, i as int).contains(k),
            forall|k: Seq<char>| #[trigger] r@.contains_key(k) ==> built_from(r@[k], k, m@[k]@),
        decreases ks@.len() - i,
    {
        let k = &ks[i];
        assert(kv[i as int] == k@);
        assert(m@.contains_key(k@));
        match m.get(k.as_str()) {
            Some(hs) => {
                let s = build_sequence(k.as_str(), hs);
                r.insert(k.clone(), s);
            },
            None => {},
        }
        assert forall|x: Seq<char>| #[trigger] r@.contains_key(x) <==> kv.subrange(0, i + 1).contains(x) by {
            let pre = kv.subrange(0, i as int);
            let nxt = kv.subrange(0, i + 1);
            assert(nxt =~= pre.push(k@));
            if nxt.contains(x) {
                let t = choose|t: int| 0 <= t < nxt.len() && nxt[t] == x;
                if t < i {
                    assert(pre[t] == x);
                }
            }
            if pre.contains(x) {
                let t = choose|t: int| 0 <= t < pre.len() && pre[t] == x;
                assert(nxt[t] == x);
            }
            assert(nxt[i as int] == k@);
        }
        i = i + 1;
    }
    assert(kv.subrange(0, ks@.len() as int) =~= kv);
    assert(r@.dom() =~= m@.dom());
    r
}

/// The file of every sequence of the lists `main` and `sub`.
pub open spec fn file_of(f: SequenceFileV, main: Map<Seq<char>, Vec<Handler>>, sub: Map<Seq<char>, Vec<Handler>>) -> bool {
    &&& f.main.dom() == main.dom()
    &&& forall|k: Seq<char>| #[trigger] f.main.contains_key(k) ==> built_from(f.main[k], k, main[k]@)
    &&& f.sub.dom() == sub.dom()
    &&& forall|k: Seq<char>| #[trigger] f.sub.contains_key(k) ==> built_from(f.sub[k], k, sub[k]@)
}

impl Workspace {
    /// Moves the current sequence to the list of type `t`, under a name not
    /// yet taken there; the workflow takes the new type in any case.
    pub fn change_type(&mut self, t: SequenceType)
        ensures
            ({
                let o = *old(self);
                let n = *final(self);
                if o.current_sequence_type == t {
                    n == o
                } else {
                    &&& n.current_sequence_type == t
                    &&& n.workflow == o.workflow
                    &&& n.editor == o.editor
                    &&& n.editing_index == o.editing_index
                    &&& n.test_inputs == o.test_inputs
                    &&& same_session(o, n)
                    &&& match o.current_sequence_name {
                        Some(name) => if list_map(o, o.current_sequence_type).contains_key(name@) {
                            let s = o.current_sequence_type;
                            let new_name = unique_name_spec(name@, list_names(o, t));
                            &&& list_map(n, s) == list_map(o, s).remove(name@)
                            &&& list_names(n, s) == without(list_names(o, s), name@)
                            &&& stored(list_map(o, t), list_map(n, t), new_name, o.workflow@)
                            &&& list_names(n, t) == list_names(o, t).push(new_name)
                            &&& if new_name == name@ {
                                &&& n.current_sequence_name == o.current_sequence_name
                                &&& strs(n.logs@) == strs(o.logs@).push(moved_line(name@, t))
                            } else {
                                &&& n.current_sequence_name matches Some(c) && c@ == new_name
                                &&& strs(n.logs@) == strs(o.logs@).push(renamed_line(name@, new_name)).push(
                                    moved_line(new_name, t),
                                )
                            }
                        } else {
                            same_lists(o, n) && n.current_sequence_name == o.current_sequence_name && n.logs == o.logs
                        },
                        None => same_lists(o, n) && n.current_sequence_name == o.current_sequence_name && n.logs
                            == o.logs,
                    }
                }
            }),
    {
        if self.current_sequence_type == t {
            return;
        }
        if let Some(name) = &self.current_sequence_name {
            let name = name.clone();
            let present = match self.current_sequence_type {
                SequenceType::Main => self.main_sequences.contains_key(name.as_str()),
                SequenceType::Sub => self.sub_sequences.contains_key(name.as_str()),
            };
            if present {
                match self.current_sequence_type {
                    SequenceType::Main => take_out(&mut self.main_sequences, &mut self.main_sequence_names, &name),
                    SequenceType::Sub => take_out(&mut self.sub_sequences, &mut self.sub_sequence_names, &name),
                };
                let new_name = match t {
                    SequenceType::Main => unique_name(name.as_str(), &self.main_sequence_names),
                    SequenceType::Sub => unique_name(name.as_str(), &self.sub_sequence_names),
                };
                match t {
                    SequenceType::Main => {
                        let ghost before = strs(self.main_sequence_names@);
                        self.main_sequence_names.push(new_name.clone());
                        assert(strs(self.main_sequence_names@) =~= before.push(new_name@));
                        store_copy(&mut self.main_sequences, &new_name, &self.workflow);
                    },
                    SequenceType::Sub => {
                        let ghost before = strs(self.sub_sequence_names@);
                        self.sub_sequence_names.push(new_name.clone());
                        assert(strs(self.sub_sequence_names@) =~= before.push(new_name@));
                        store_copy(&mut self.sub_sequences, &new_name, &self.workflow);
                    },
                }
                let shown: String;
                if !str_eq(name.as_str(), new_name.as_str()) {
                    let mut line = String::from_str("📋 Renamed (collision): '");
                    line.append(name.as_str());
                    line.append("' → '");
                    line.append(new_name.as_str());
                    line.append("'");
                    self.log(line);
                    shown = new_name.clone();
                    self.current_sequence_name = Some(new_name);
                } else {
                    shown = name;
                }
                let mut line = String::from_str("📋 Moved: '");
                line.append(shown.as_str());
                line.append("' → ");
                line.append(t.name());
                self.log(line);
            }
        }
        self.current_sequence_type = t;
    }

    /// Deletes the current sequence from its list and empties the workflow.
    pub fn delete_current(&mut self)
        ensures
            ({
                let o = *old(self);
                let n = *final(self);
                match o.current_sequence_name {
                    Some(name) => {
                        let t = o.current_sequence_type;
                        &&& list_map(n, t) == list_map(o, t).remove(name@)
                        &&& list_names(n, t) == without(list_names(o, t), name@)
                        &&& other_list_same(o, n, t)
                        &&& n.workflow@.len() == 0
                        &&& n.current_sequence_name is None
                        &&& n.current_sequence_type == o.current_sequence_type
                        &&& n.editor == o.editor
                        &&& n.editing_index == o.editing_index
                        &&& n.test_inputs == o.test_inputs
                        &&& same_session(o, n)
                        &&& strs(n.logs@) == strs(o.logs@).push(deleted_line(name@))
                    },
                    None => n == o,
                }
            }),
    {
        if let Some(name) = &self.current_sequence_name {
            let name = name.clone();
            match self.current_sequence_type {
                SequenceType::Main => {
                    self.main_sequences.remove(name.as_str());
                    let r = remove_all(&self.main_sequence_names, name.as_str());
                    self.main_sequence_names = r;
                },
                SequenceType::Sub => {
                    self.sub_sequences.remove(name.as_str());
                    let r = remove_all(&self.sub_sequence_names, name.as_str());
                    self.sub_sequence_names = r;
                },
            }
            self.workflow = Vec::new();
            self.current_sequence_name = None;
            let mut line = String::from_str("🗑️ Deleted: ");
            line.append(name.as_str());
            self.log(line);
        }
    }

    /// Opens the save-as dialog on the current name and type, or on
    /// `main_{n}` / `sub_{n}` for the next number of the list.
    pub fn send_to_list(&mut self)
        requires
            old(self).main_sequence_names@.len() < usize::MAX,
            old(self).sub_sequence_names@.len() < usize::MAX,
        ensures
            ({
                let o = *old(self);
                let n = *final(self);
                &&& n.show_save_as
                &&& n.save_as_type == o.current_sequence_type
                &&& n.save_as_name@ == match o.current_sequence_name {
                    Some(c) => c@,
                    None => match o.current_sequence_type {
                        SequenceType::Main => "main_"@ + dec_string(o.main_sequence_names@.len() + 1),
                        SequenceType::Sub => "sub_"@ + dec_string(o.sub_sequence_names@.len() + 1),
                    },
                }
                &&& same_work(o, n)
                &&& same_lists(o, n)
                &&& n.logs == o.logs
                &&& n.current_file_path == o.current_file_path
                &&& n.browser_type == o.browser_type
                &&& n.browser_running == o.browser_running
                &&& n.browser_status == o.browser_status
                &&& n.start_url == o.start_url
                &&& n.sequence_running == o.sequence_running
                &&& n.last_result == o.last_result
            }),
    {
        self.show_save_as = true;
        self.save_as_type = self.current_sequence_type;
        match &self.current_sequence_name {
            Some(name) => {
                self.save_as_name = name.clone();
            },
            None => {
                let (prefix, count) = match self.current_sequence_type {
                    SequenceType::Main => ("main_", self.main_sequence_names.len()),
                    SequenceType::Sub => ("sub_", self.sub_sequence_names.len()),
                };
                let mut s = String::from_str(prefix);
                let d = usize_to_string(count + 1);
                s.append(d.as_str());
                self.save_as_name = s;
            },
        }
    }
}


/// One sequence of a loaded file joins a list: under its own name, or with
/// `merge` under a name not yet taken; its name joins the order of names
/// when new there, and counts as added.
pub open spec fn load_step(
    acc: (Seq<Seq<char>>, Map<Seq<char>, Vec<Handler>>, nat),
    name: Seq<char>,
    hs: Vec<Handler>,
    merge: bool,
) -> (Seq<Seq<char>>, Map<Seq<char>, Vec<Handler>>, nat) {
    let final_name = if merge {
        unique_name_spec(name, acc.0)
    } else {
        name
    };
    if acc.0.contains(final_name) {
        (acc.0, acc.1.insert(final_name, hs), acc.2)
    } else {
        (acc.0.push(final_name), acc.1.insert(final_name, hs), acc.2 + 1)
    }
}

/// The list after the sequences `entries[..n]` of a file joined it.
pub open spec fn load_all(
    start: (Seq<Seq<char>>, Map<Seq<char>, Vec<Handler>>, nat),
    entries: Seq<(String, Sequence)>,
    n: int,
    merge: bool,
) -> (Seq<Seq<char>>, Map<Seq<char>, Vec<Handler>>, nat)
    decreases n,
{
    if n <= 0 || n > entries.len() {
        start
    } else {
        load_step(load_all(start, entries, n - 1, merge), entries[n - 1].0@, entries[n - 1].1.step_sequence, merge)
    }
}

/// Where a list starts from when a file loads: as it is when merging,
/// else empty.
pub open spec fn load_start(names: Seq<Seq<char>>, map: Map<Seq<char>, Vec<Handler>>, merge: bool) -> (
    Seq<Seq<char>>,
    Map<Seq<char>, Vec<Handler>>,
    nat,
) {
    if merge {
        (names, map, 0)
    } else {
        (Seq::empty(), Map::empty(), 0)
    }
}

/// The names and handlers of the entries `e[..n]`.
pub open spec fn listed(e: Seq<(String, Sequence)>, n: int) -> (Seq<Seq<char>>, Map<Seq<char>, Vec<Handler>>) {
    (
        e.subrange(0, n).map_values(|p: (String, Sequence)| p.0@),
        entries_map(e.subrange(0, n)).map_values(|s: Sequence| s.step_sequence),
    )
}

proof fn lemma_load_fresh(e: Seq<(String, Sequence)>, n: int)
    requires
        keys_distinct(e),
        0 <= n <= e.len(),
    ensures
        load_all((Seq::empty(), Map::empty(), 0), e, n, false) == (listed(e, n).0, listed(e, n).1, n as nat),
    decreases n,
{
    if n == 0 {
        assert(listed(e, 0).0 =~= Seq::<Seq<char>>::empty());
        assert(entries_map(e.subrange(0, 0)) =~= Map::<Seq<char>, Sequence>::empty());
        assert(listed(e, 0).1 =~= Map::<Seq<char>, Vec<Handler>>::empty());
    } else {
        lemma_load_fresh(e, n - 1);
        lemma_entries_map_prefix(e, n - 1);
        let acc = listed(e, n - 1);
        let name = e[n - 1].0@;
        assert(!acc.0.contains(name)) by {
            if acc.0.contains(name) {
                let j = choose|j: int| 0 <= j < acc.0.len() && acc.0[j] == name;
                assert(e[j].0@ == e[n - 1].0@);
            }
        }
        assert(listed(e, n).0 =~= acc.0.push(name));
        assert(listed(e, n).1 =~= acc.1.insert(name, e[n - 1].1.step_sequence));
    }
}

/// Loading without merging lists exactly what the file holds: its names in
/// the file's order, each with the handlers of its sequence, all counted as
/// added.
pub proof fn law_load_lists_the_file(m: StrMap<Sequence>, names: Seq<Seq<char>>, map: Map<Seq<char>, Vec<Handler>>)
    requires
        keys_distinct(m.entries()),
    ensures
        load_all(load_start(names, map, false), m.entries(), m.entries().len() as int, false) == (
            m.key_seq(),
            m@.map_values(|s: Sequence| s.step_sequence),
            m.entries().len(),
        ),
{
    let e = m.entries();
    lemma_load_fresh(e, e.len() as int);
    m.lemma_view_entries();
    assert(e.subrange(0, e.len() as int) =~= e);
    assert(listed(e, e.len() as int).0 =~= m.key_seq());
}

/// A file collected from the lists, loaded back without merging, gives the
/// lists back: the same names, each with copies of the same handlers.
pub proof fn law_load_after_collect(
    f: SequenceFile,
    main: Map<Seq<char>, Vec<Handler>>,
    sub: Map<Seq<char>, Vec<Handler>>,
    names: Seq<Seq<char>>,
    map: Map<Seq<char>, Vec<Handler>>,
)
    requires
        keys_distinct(f.main_sequences.entries()),
        keys_distinct(f.sub_sequences.entries()),
        file_of(f@, main, sub),
    ensures
        ({
            let rm = load_all(
                load_start(names, map, false),
                f.main_sequences.entries(),
                f.main_sequences.entries().len() as int,
                false,
            );
            let rs = load_all(
                load_start(names, map, false),
                f.sub_sequences.entries(),
                f.sub_sequences.entries().len() as int,
                false,
            );
            &&& rm.1.dom() == main.dom()
            &&& forall|k: Seq<char>| #[trigger] rm.1.contains_key(k) ==> same_handlers(rm.1[k]@, main[k]@)
            &&& rs.1.dom() == sub.dom()
            &&& forall|k: Seq<char>| #[trigger] rs.1.contains_key(k) ==> same_handlers(rs.1[k]@, sub[k]@)
        }),
{
    law_load_lists_the_file(f.main_sequences, names, map);
    law_load_lists_the_file(f.sub_sequences, names, map);
    assert(f.main_sequences@.map_values(|s: Sequence| s.step_sequence).dom() =~= main.dom());
    assert(f.sub_sequences@.map_values(|s: Sequence| s.step_sequence).dom() =~= sub.dom());
}

/// The log line of a finished load or merge.
pub open spec fn loaded_line(merge: bool, path: Seq<char>, added_main: nat, added_sub: nat) -> Seq<char> {
    "✅ "@ + (if merge {
        "Merge"@
    } else {
        "Load"@
    }) + " complete: "@ + path + " (main +"@ + dec_string(added_main) + ", sub +"@ + dec_string(added_sub)
        + ")"@
}

/// Adds the sequences of a file to a list, in the file's order.
fn load_into(
    map: &mut StrMap<Vec<Handler>>,
    names: &mut Vec<String>,
    entries: Vec<(String, Sequence)>,
    merge: bool,
) -> (added: usize)
    ensures
        ({
            let r = load_all((strs(old(names)@), old(map)@, 0), entries@, entries@.len() as int, merge);
            &&& strs(final(names)@) == r.0
            &&& final(map)@ == r.1
            &&& added == r.2
        }),
{
    let ghost all = entries@;
    let ghost start = (strs(names@), map@, 0nat);
    let total = entries.len();
    let mut rest = entries;
    let mut k: usize = 0;
    let mut added: usize = 0;
    while rest.len() > 0
        invariant
            k <= all.len(),
            all.len() == total,
            rest@ == all.subrange(k as int, all.len() as int),
            added <= k,
            ({
                let r = load_all(start, all, k as int, merge);
                &&& strs(names@) == r.0
                &&& map@ == r.1
                &&& added == r.2
            }),
        decreases rest@.len(),
    {
        let (name, seq) = rest.remove(0);
        assert(all[k as int] == (name, seq));
        let final_name = if merge {
            unique_name(name.as_str(), names)
        } else {
            name
        };
        if !contains_str(names, final_name.as_str()) {
            let ghost before = strs(names@);
            names.push(final_name.clone());
            assert(strs(names@) =~= before.push(final_name@));
            added = added + 1;
        }
        map.insert(final_name, seq.step_sequence);
        k = k + 1;
        assert(rest@ =~= all.subrange(k as int, all.len() as int));
    }
    added
}

impl Workspace {
    /// Sets the name the save-as dialog proposes.
    pub fn set_save_as_name(&mut self, name: String)
        ensures
            final(self).save_as_name == name,
            final(self).show_save_as == old(self).show_save_as,
            final(self).save_as_type == old(self).save_as_type,
            same_work(*old(self), *final(self)),
            same_lists(*old(self), *final(self)),
            final(self).logs == old(self).logs,
    {
        self.save_as_name = name;
    }

    /// Sets the list the save-as dialog stores into.
    pub fn set_save_as_type(&mut self, t: SequenceType)
        ensures
            final(self).save_as_type == t,
            final(self).save_as_name == old(self).save_as_name,
            final(self).show_save_as == old(self).show_save_as,
            same_work(*old(self), *final(self)),
            same_lists(*old(self), *final(self)),
            final(self).logs == old(self).logs,
    {
        self.save_as_type = t;
    }

    /// Closes the save-as dialog.
    pub fn cancel_save_as(&mut self)
        ensures
            !final(self).show_save_as,
            final(self).save_as_name == old(self).save_as_name,
            final(self).save_as_type == old(self).save_as_type,
            same_work(*old(self), *final(self)),
            same_lists(*old(self), *final(self)),
            final(self).logs == old(self).logs,
    {
        self.show_save_as = false;
    }

    /// Stores a copy of the workflow in the save-as list under the save-as
    /// name, which becomes the current sequence; an empty name does nothing.
    pub fn confirm_save_as(&mut self)
        ensures
            saved_as(*old(self), *final(self)),
    {
        if self.save_as_name.as_str().is_empty() {
            return;
        }
        let name = self.save_as_name.clone();
        match self.save_as_type {
            SequenceType::Main => {
                push_name(&mut self.main_sequence_names, &name);
                store_copy(&mut self.main_sequences, &name, &self.workflow);
            },
            SequenceType::Sub => {
                push_name(&mut self.sub_sequence_names, &name);
                store_copy(&mut self.sub_sequences, &name, &self.workflow);
            },
        }
        let mut line = String::from_str("💾 ");
        line.append(self.save_as_type.name());
        line.append(" saved as: ");
        line.append(name.as_str());
        self.current_sequence_name = Some(name);
        self.current_sequence_type = self.save_as_type;
        self.show_save_as = false;
        self.log(line);
    }

    /// What a save reported: the path becomes the file's; a failure other
    /// than a cancel is logged.
    pub fn file_saved(&mut self, result: Result<String, String>)
        ensures
            same_work(*old(self), *final(self)),
            same_lists(*old(self), *final(self)),
            match result {
                Ok(path) => final(self).current_file_path == Some(path) && strs(final(self).logs@) == strs(
                    old(self).logs@,
                ).push("✅ Saved: "@ + path@),
                Err(e) => final(self).current_file_path == old(self).current_file_path && strs(final(self).logs@)
                    == if e@ == "Cancelled"@ {
                    strs(old(self).logs@)
                } else {
                    strs(old(self).logs@).push("❌ "@ + e@)
                },
            },
    {
        match result {
            Ok(path) => {
                let mut line = String::from_str("✅ Saved: ");
                line.append(path.as_str());
                self.current_file_path = Some(path);
                self.log(line);
            },
            Err(e) => {
                if !str_eq(e.as_str(), "Cancelled") {
                    let mut line = String::from_str("❌ ");
                    line.append(e.as_str());
                    self.log(line);
                }
            },
        }
    }

    /// Stores a copy of the workflow under the current name (when there is
    /// one) in its list, then gives the file of every sequence of both lists.
    pub fn collect_file(&mut self) -> (f: SequenceFile)
        ensures
            ({
                let o = *old(self);
                let n = *final(self);
                &&& match o.current_sequence_name {
                    Some(name) => {
                        let t = o.current_sequence_type;
                        &&& stored(list_map(o, t), list_map(n, t), name@, o.workflow@)
                        &&& list_names(n, t) == list_names(o, t)
                        &&& other_list_same(o, n, t)
                    },
                    None => same_lists(o, n),
                }
                &&& n.main_sequence_names == o.main_sequence_names
                &&& n.sub_sequence_names == o.sub_sequence_names
                &&& file_of(f@, n.main_sequences@, n.sub_sequences@)
                &&& same_work(o, n)
                &&& same_session(o, n)
                &&& n.logs == o.logs
            }),
    {
        if let Some(name) = &self.current_sequence_name {
            match self.current_sequence_type {
                SequenceType::Main => store_copy(&mut self.main_sequences, name, &self.workflow),
                SequenceType::Sub => store_copy(&mut self.sub_sequences, name, &self.workflow),
            }
        }
        SequenceFile { main_sequences: sequences_of(&self.main_sequences), sub_sequences: sequences_of(&self.sub_sequences) }
    }

    /// The file holding just the workflow, under the current name (or
    /// `untitled`) in the list of its type; an empty workflow is logged and
    /// gives none.
    pub fn export_file(&mut self) -> (f: Option<SequenceFile>)
        ensures
            ({
                let o = *old(self);
                let n = *final(self);
                &&& same_work(o, n)
                &&& same_lists(o, n)
                &&& same_session(o, n)
                &&& if o.workflow@.len() == 0 {
                    &&& f is None
                    &&& strs(n.logs@) == strs(o.logs@).push("❌ No sequence to export"@)
                } else {
                    let name = match o.current_sequence_name {
                        Some(c) => c@,
                        None => "untitled"@,
                    };
                    &&& n.logs == o.logs
                    &&& f matches Some(file) && match o.current_sequence_type {
                        SequenceType::Main => file@.sub == Map::<Seq<char>, Sequence>::empty() && file@.main.dom()
                            == set![name] && built_from(file@.main[name], name, o.workflow@),
                        SequenceType::Sub => file@.main == Map::<Seq<char>, Sequence>::empty() && file@.sub.dom()
                            == set![name] && built_from(file@.sub[name], name, o.workflow@),
                    }
                }
            }),
    {
        if self.workflow.len() == 0 {
            self.log(String::from_str("❌ No sequence to export"));
            return None;
        }
        let name = match &self.current_sequence_name {
            Some(c) => c.clone(),
            None => String::from_str("untitled"),
        };
        let seq = build_sequence(name.as_str(), &self.workflow);
        let mut file = SequenceFile::empty();
        match self.current_sequence_type {
            SequenceType::Main => file.insert_main(seq),
            SequenceType::Sub => file.insert_sub(seq),
        }
        proof {
            assert(file@.main.dom() =~= set![name@] || file@.sub.dom() =~= set![name@]);
        }
        Some(file)
    }

    /// Loads the sequences of `file` read from `path`. Without `merge` the
    /// lists are replaced and the first main sequence (if any) is opened;
    /// with `merge` they are added under names not yet taken.
    pub fn load_file(&mut self, file: SequenceFile, path: String, merge: bool)
        ensures
            ({
                let o = *old(self);
                let n = *final(self);
                let rm = load_all(
                    load_start(strs(o.main_sequence_names@), o.main_sequences@, merge),
                    file.main_sequences.entries(),
                    file.main_sequences.entries().len() as int,
                    merge,
                );
                let rs = load_all(
                    load_start(strs(o.sub_sequence_names@), o.sub_sequences@, merge),
                    file.sub_sequences.entries(),
                    file.sub_sequences.entries().len() as int,
                    merge,
                );
                &&& strs(n.main_sequence_names@) == rm.0
                &&& n.main_sequences@ == rm.1
                &&& strs(n.sub_sequence_names@) == rs.0
                &&& n.sub_sequences@ == rs.1
                &&& strs(n.logs@) == strs(o.logs@).push(loaded_line(merge, path@, rm.2, rs.2))
                &&& inputs_refreshed(o.test_inputs@, n.test_inputs@, n.workflow@)
                &&& n.editor == o.editor
                &&& n.editing_index == o.editing_index
                &&& if merge {
                    &&& n.workflow == o.workflow
                    &&& n.current_sequence_name == o.current_sequence_name
                    &&& n.current_sequence_type == o.current_sequence_type
                    &&& same_session(o, n)
                } else {
                    &&& n.current_file_path == Some(path)
                    &&& if rm.0.len() > 0 && rm.1.contains_key(rm.0[0]) {
                        &&& same_handlers(n.workflow@, rm.1[rm.0[0]]@)
                        &&& n.current_sequence_name matches Some(c) && c@ == rm.0[0]
                        &&& n.current_sequence_type == SequenceType::Main
                    } else {
                        &&& n.workflow@.len() == 0
                        &&& n.current_sequence_name is None
                        &&& n.current_sequence_type == o.current_sequence_type
                    }
                }
            }),
    {
        let ghost o = *self;
        if !merge {
            self.main_sequences = StrMap::new();
            self.main_sequence_names = Vec::new();
            self.sub_sequences = StrMap::new();
            self.sub_sequence_names = Vec::new();
            self.workflow = Vec::new();
            self.current_sequence_name = None;
            assert(strs(self.main_sequence_names@) =~= Seq::<Seq<char>>::empty());
            assert(strs(self.sub_sequence_names@) =~= Seq::<Seq<char>>::empty());
        }
        let SequenceFile { main_sequences, sub_sequences } = file;
        let added_main = load_into(
            &mut self.main_sequences,
            &mut self.main_sequence_names,
            main_sequences.into_entries(),
            merge,
        );
        let added_sub = load_into(
            &mut self.sub_sequences,
            &mut self.sub_sequence_names,
            sub_sequences.into_entries(),
            merge,
        );
        if !merge {
            if self.main_sequence_names.len() > 0 {
                let first = self.main_sequence_names[0].clone();
                match self.main_sequences.get(first.as_str()) {
                    Some(hs) => {
                        let c = clone_handlers(hs);
                        self.workflow = c;
                        self.current_sequence_name = Some(first);
                        self.current_sequence_type = SequenceType::Main;
                    },
                    None => {},
                }
            }
            self.current_file_path = Some(path.clone());
        }
        let mut line = String::from_str("✅ ");
        line.append(if merge {
            "Merge"
        } else {
            "Load"
        });
        line.append(" complete: ");
        line.append(path.as_str());
        line.append(" (main +");
        let a = usize_to_string(added_main);
        line.append(a.as_str());
        line.append(", sub +");
        let b = usize_to_string(added_sub);
        line.append(b.as_str());
        line.append(")");
        self.log(line);
        self.refresh_test_inputs();
    }

    /// A file that did not hold a sequence file: logged.
    pub fn file_not_loaded(&mut self, error: &str)
        ensures
            same_work(*old(self), *final(self)),
            same_lists(*old(self), *final(self)),
            same_session(*old(self), *final(self)),
            strs(final(self).logs@) == strs(old(self).logs@).push(
                "❌ JSON parse error (Not a valid SequenceFile): "@ + error@,
            ),
    {
        let mut line = String::from_str("❌ JSON parse error (Not a valid SequenceFile): ");
        line.append(error);
        self.log(line);
    }

    /// A file that could not be read: logged unless the pick was cancelled.
    pub fn file_not_read(&mut self, error: &str)
        ensures
            same_work(*old(self), *final(self)),
            same_lists(*old(self), *final(self)),
            same_session(*old(self), *final(self)),
            strs(final(self).logs@) == if error@ == "Cancelled"@ {
                strs(old(self).logs@)
            } else {
                strs(old(self).logs@).push("❌ "@ + error@)
            },
    {
        if !str_eq(error, "Cancelled") {
            let mut line = String::from_str("❌ ");
            line.append(error);
            self.log(line);
        }
    }
}

// ---------------------------------------------------------------------
// Editing handlers of the workflow
// ---------------------------------------------------------------------

/// The log line of a SubSequence dropped without a container.
pub open spec fn no_container_line() -> Seq<char> {
    "⚠️ SubSequence requires a Container to be present"@
}

/// The log line of a SubSequence dropped above the first container.
pub open spec fn above_container_line() -> Seq<char> {
    "⚠️ SubSequence can only be placed after a Container"@
}

/// The log line of a SubSequence moved above the first container.
pub open spec fn moved_above_line() -> Seq<char> {
    "⚠️ SubSequence cannot be moved above a Container"@
}

/// Where a handler taken from `from` lands when dropped at `insert`.
pub open spec fn move_target(from: int, insert: int) -> int {
    if from < insert {
        insert - 1
    } else {
        insert
    }
}

impl Workspace {
    /// Opens the form on handler `index` of the workflow, offering the
    /// sub-sequence list; a sub-sequence also gets the fields of the
    /// container before it. An index past the end does nothing.
    pub fn edit_handler(&mut self, index: usize)
        ensures
            ({
                let o = *old(self);
                let n = *final(self);
                if index < o.workflow@.len() {
                    &&& n.editor.is_open
                    &&& same_handler(n.editor.handler, o.workflow@[index as int])
                    &&& n.editor.available_sequences@ == o.sub_sequence_names@
                    &&& n.editing_index == Some(index)
                    &&& match o.workflow@[index as int] {
                        Handler::SubSequence(_) => n.editor.container_fields@.map_values(
                            |f: ContainerField| field_view(f),
                        ) == container_fields_before(o.workflow@, index as int),
                        _ => n.editor.container_fields == o.editor.container_fields,
                    }
                    &&& match n.editor.handler {
                        Handler::SubSequence(seq) => {
                            &&& mappings_from(n.editor.input_mappings@, seq.metadata@)
                            &&& keys_of_sequence(n.editor.subsequence_binding_keys@, seq)
                        },
                        _ => n.editor.input_mappings@.len() == 0 && n.editor.subsequence_binding_keys@.len() == 0,
                    }
                    &&& n.workflow == o.workflow
                    &&& n.current_sequence_name == o.current_sequence_name
                    &&& n.current_sequence_type == o.current_sequence_type
                    &&& n.test_inputs == o.test_inputs
                    &&& same_lists(o, n)
                    &&& same_session(o, n)
                    &&& n.logs == o.logs
                } else {
                    n == o
                }
            }),
    {
        if index >= self.workflow.len() {
            return;
        }
        self.editor.available_sequences = clone_strings(&self.sub_sequence_names);
        if let Handler::SubSequence(_) = &self.workflow[index] {
            let fields = find_previous_container_fields(&self.workflow, index);
            self.editor.set_container_context(fields);
        }
        let h = clone_handler(&self.workflow[index]);
        self.editor.open(h);
        self.editing_index = Some(index);
    }

    /// Applies a change made in the form. Closing forgets the edit; saving
    /// writes the mappings and puts a copy of the edited handler back in
    /// its place; picking a sub-sequence from the list loads its handlers
    /// and the keys they read; anything else goes to the form.
    pub fn editor_msg(&mut self, msg: EditorMsg)
        ensures
            ({
                let o = *old(self);
                let n = *final(self);
                &&& same_lists(o, n)
                &&& same_session(o, n)
                &&& n.logs == o.logs
                &&& n.current_sequence_name == o.current_sequence_name
                &&& n.current_sequence_type == o.current_sequence_type
                &&& match msg {
                    EditorMsg::Close => {
                        &&& closed(o.editor, n.editor)
                        &&& n.editor.handler == o.editor.handler
                        &&& n.editing_index is None
                        &&& n.workflow == o.workflow
                        &&& n.test_inputs == o.test_inputs
                    },
                    EditorMsg::Save => {
                        &&& closed(o.editor, n.editor)
                        &&& with_mappings_applied(o.editor, n.editor.handler)
                        &&& n.editing_index is None
                        &&& match o.editing_index {
                            Some(idx) => if idx < o.workflow@.len() {
                                &&& n.workflow@.len() == o.workflow@.len()
                                &&& same_handler(n.workflow@[idx as int], n.editor.handler)
                                &&& forall|j: int|
                                    0 <= j < o.workflow@.len() && j != idx ==> n.workflow@[j] == o.workflow@[j]
                            } else {
                                n.workflow == o.workflow
                            },
                            None => n.workflow == o.workflow,
                        }
                        &&& inputs_refreshed(o.test_inputs@, n.test_inputs@, n.workflow@)
                    },
                    EditorMsg::SubSeqSelectFromList(name) => {
                        &&& n.workflow == o.workflow
                        &&& n.editing_index == o.editing_index
                        &&& n.test_inputs == o.test_inputs
                        &&& if o.sub_sequences@.contains_key(name@) && o.editor.handler is SubSequence {
                            &&& n.editor.handler matches Handler::SubSequence(t) && t.sequence_name == name
                                && same_handlers(t.step_sequence@, o.sub_sequences@[name@]@)
                                && keys_of_sequence(n.editor.subsequence_binding_keys@, t)
                            &&& o.editor.handler matches Handler::SubSequence(s) && n.editor.handler matches Handler::SubSequence(
                                t,
                            ) && t.target_data == s.target_data && t.metadata == s.metadata
                            &&& n.editor.is_open == o.editor.is_open
                            &&& n.editor.available_sequences == o.editor.available_sequences
                            &&& n.editor.container_fields == o.editor.container_fields
                            &&& n.editor.input_mappings == o.editor.input_mappings
                        } else {
                            editor_next(o.editor, msg, n.editor)
                        }
                    },
                    _ => {
                        &&& editor_next(o.editor, msg, n.editor)
                        &&& n.workflow == o.workflow
                        &&& n.editing_index == o.editing_index
                        &&& n.test_inputs == o.test_inputs
                    },
                }
            }),
    {
        match msg {
            EditorMsg::Close => {
                self.editor.close();
                self.editing_index = None;
            },
            EditorMsg::Save => {
                self.editor.apply_mappings_to_handler();
                if let Some(idx) = self.editing_index {
                    if idx < self.workflow.len() {
                        let h = clone_handler(&self.editor.handler);
                        self.workflow.set(idx, h);
                    }
                }
                self.editor.close();
                self.editing_index = None;
                self.refresh_test_inputs();
            },
            EditorMsg::SubSeqSelectFromList(name) => {
                match self.sub_sequences.get(name.as_str()) {
                    Some(hs) => {
                        if let Handler::SubSequence(seq) = &mut self.editor.handler {
                            seq.sequence_name = name;
                            seq.step_sequence = clone_handlers(hs);
                            let keys = extract_binding_keys_from_sequence(seq);
                            self.editor.subsequence_binding_keys = keys;
                            return;
                        }
                        self.editor.update(EditorMsg::SubSeqSelectFromList(name));
                    },
                    None => {
                        self.editor.update(EditorMsg::SubSeqSelectFromList(name));
                    },
                }
            },
            _ => {
                self.editor.update(msg);
            },
        }
    }

    /// Drops a fresh handler of template `kind` at `insert`. A sub-sequence
    /// needs a container before it: otherwise the drop is refused and
    /// logged.
    pub fn drop_new(&mut self, kind: PaletteKind, insert: usize)
        requires
            insert <= old(self).workflow@.len(),
        ensures
            ({
                let o = *old(self);
                let n = *final(self);
                &&& same_lists(o, n)
                &&& same_session(o, n)
                &&& n.current_sequence_name == o.current_sequence_name
                &&& n.current_sequence_type == o.current_sequence_type
                &&& n.editor == o.editor
                &&& n.editing_index == o.editing_index
                &&& if kind == PaletteKind::SubSequence && first_container_from(o.workflow@, 0) is None {
                    n.workflow == o.workflow && n.test_inputs == o.test_inputs && strs(n.logs@) == strs(
                        o.logs@,
                    ).push(no_container_line())
                } else if kind == PaletteKind::SubSequence && !below_first_container(o.workflow@, insert as int) {
                    n.workflow == o.workflow && n.test_inputs == o.test_inputs && strs(n.logs@) == strs(
                        o.logs@,
                    ).push(above_container_line())
                } else {
                    &&& n.workflow@.len() == o.workflow@.len() + 1
                    &&& is_template(kind, n.workflow@[insert as int])
                    &&& n.workflow@ == o.workflow@.insert(insert as int, n.workflow@[insert as int])
                    &&& inputs_refreshed(o.test_inputs@, n.test_inputs@, n.workflow@)
                    &&& n.logs == o.logs
                }
            }),
    {
        if kind == PaletteKind::SubSequence {
            if !has_any_container(&self.workflow) {
                self.log(String::from_str("⚠️ SubSequence requires a Container to be present"));
                return;
            }
            if !is_below_first_container(&self.workflow, insert) {
                self.log(String::from_str("⚠️ SubSequence can only be placed after a Container"));
                return;
            }
        }
        let h = kind.default_handler();
        self.workflow.insert(insert, h);
        self.refresh_test_inputs();
    }

    /// Moves handler `from` to the drop position `insert`. A sub-sequence
    /// may not land above the first container: that move is refused and
    /// logged.
    pub fn move_handler(&mut self, from: usize, insert: usize)
        requires
            from < old(self).workflow@.len(),
            insert <= old(self).workflow@.len(),
        ensures
            ({
                let o = *old(self);
                let n = *final(self);
                let target = move_target(from as int, insert as int);
                &&& same_lists(o, n)
                &&& same_session(o, n)
                &&& n.current_sequence_name == o.current_sequence_name
                &&& n.current_sequence_type == o.current_sequence_type
                &&& n.editor == o.editor
                &&& n.editing_index == o.editing_index
                &&& if from != insert && o.workflow@[from as int] is SubSequence && !below_first_container(
                    o.workflow@,
                    target,
                ) {
                    n.workflow == o.workflow && n.test_inputs == o.test_inputs && strs(n.logs@) == strs(
                        o.logs@,
                    ).push(moved_above_line())
                } else {
                    &&& n.workflow@ == if from != insert {
                        o.workflow@.remove(from as int).insert(target, o.workflow@[from as int])
                    } else {
                        o.workflow@
                    }
                    &&& inputs_refreshed(o.test_inputs@, n.test_inputs@, n.workflow@)
                    &&& n.logs == o.logs
                }
            }),
    {
        if from != insert {
            let is_sub = match &self.workflow[from] {
                Handler::SubSequence(_) => true,
                _ => false,
            };
            let target = if from < insert {
                insert - 1
            } else {
                insert
            };
            if is_sub && !is_below_first_container(&self.workflow, target) {
                self.log(String::from_str("⚠️ SubSequence cannot be moved above a Container"));
                return;
            }
            let item = self.workflow.remove(from);
            self.workflow.insert(target, item);
        }
        self.refresh_test_inputs();
    }

    /// Deletes handler `from` of the workflow.
    pub fn delete_handler(&mut self, from: usize)
        requires
            from < old(self).workflow@.len(),
        ensures
            ({
                let o = *old(self);
                let n = *final(self);
                &&& n.workflow@ == o.workflow@.remove(from as int)
                &&& inputs_refreshed(o.test_inputs@, n.test_inputs@, n.workflow@)
                &&& same_lists(o, n)
                &&& same_session(o, n)
                &&& n.logs == o.logs
                &&& n.current_sequence_name == o.current_sequence_name
                &&& n.current_sequence_type == o.current_sequence_type
                &&& n.editor == o.editor
                &&& n.editing_index == o.editing_index
            }),
    {
        self.workflow.remove(from);
        self.refresh_test_inputs();
    }
}

// ---------------------------------------------------------------------
// The browser and the runs
// ---------------------------------------------------------------------

/// What the browser runner answered, as the editor reads it.
#[derive(Debug)]
pub enum RunnerReply {
    /// A reply object: its log lines, its message and its result rows.
    Parsed { logs: Vec<String>, message: Option<String>, data: Option<Vec<StrMap<String>>> },
    /// A reply that was not an object: its text.
    Raw(String),
}

/// A run to ask the browser runner for.
#[derive(Debug)]
pub struct RunRequest {
    pub sequence: Sequence,
    pub start_url: String,
    pub device: String,
    pub inputs: StrMap<String>,
}

/// The text of an optional message, or `default`.
pub open spec fn message_or(m: Option<String>, default: Seq<char>) -> Seq<char> {
    match m {
        Some(s) => s@,
        None => default,
    }
}

/// A value as the log shows it: at most 60 characters, longer ones cut to
/// 60 and marked with `...`.
pub open spec fn shown(v: Seq<char>) -> Seq<char> {
    if v.len() > 60 {
        v.subrange(0, 60) + "..."@
    } else {
        v
    }
}

/// The rule line of the results: 60 box-drawing dashes.
pub open spec fn rule_line() -> Seq<char> {
    Seq::new(60, |i: int| '─')
}

/// The log lines of the fields `e[..n]` of a result row.
pub open spec fn field_lines(e: Seq<(String, String)>, n: int) -> Seq<Seq<char>>
    decreases n,
{
    if n <= 0 || n > e.len() {
        Seq::empty()
    } else {
        field_lines(e, n - 1).push("  "@ + e[n - 1].0@ + ": "@ + shown(e[n - 1].1@))
    }
}

/// The log lines of the result rows `rows[..n]`: each numbered from 1,
/// then its fields.
pub open spec fn row_lines(rows: Seq<StrMap<String>>, n: int) -> Seq<Seq<char>>
    decreases n,
{
    if n <= 0 || n > rows.len() {
        Seq::empty()
    } else {
        row_lines(rows, n - 1).push("["@ + dec_string(n as nat) + "]"@) + field_lines(
            rows[n - 1].entries(),
            rows[n - 1].entries().len() as int,
        )
    }
}

/// The log lines of a result: a header with the count, a rule, the rows,
/// a rule.
pub open spec fn result_lines(rows: Seq<StrMap<String>>) -> Seq<Seq<char>> {
    seq!["\n📊 Results ("@ + dec_string(rows.len()) + " 건):"@, rule_line()] + row_lines(rows, rows.len() as int)
        + seq![rule_line()]
}

fn shown_value(v: &str) -> (r: String)
    ensures
        r@ == shown(v@),
{
    let c = chars_of(v);
    if c.len() > 60 {
        let mut r = string_of_range(&c, 0, 60);
        r.append("...");
        r
    } else {
        String::from_str(v)
    }
}

fn rule() -> (r: String)
    ensures
        r@ == rule_line(),
{
    let mut r = String::new();
    let mut i: usize = 0;
    while i < 60
        invariant
            i <= 60,
            r@ == Seq::new(i as nat, |j: int| '─'),
        decreases 60 - i,
    {
        push_char(&mut r, '─');
        i = i + 1;
        assert(r@ =~= Seq::new(i as nat, |j: int| '─'));
    }
    r
}

fn push_lines(logs: &mut Vec<String>, lines: Vec<String>)
    ensures
        strs(final(logs)@) == strs(old(logs)@) + strs(lines@),
{
    let mut i: usize = 0;
    while i < lines.len()
        invariant
            i <= lines@.len(),
            strs(logs@) == strs(old(logs)@) + strs(lines@).subrange(0, i as int),
        decreases lines@.len() - i,
    {
        let ghost before = strs(logs@);
        logs.push(lines[i].clone());
        assert(strs(logs@) =~= before.push(lines@[i as int]@));
        assert(strs(lines@).subrange(0, i + 1) =~= strs(lines@).subrange(0, i as int).push(lines@[i as int]@));
        i = i + 1;
    }
    assert(strs(lines@).subrange(0, lines@.len() as int) =~= strs(lines@));
}

fn push_result_lines(logs: &mut Vec<String>, rows: &Vec<StrMap<String>>)
    requires
        rows@.len() < usize::MAX,
    ensures
        strs(final(logs)@) == strs(old(logs)@) + result_lines(rows@),
{
    let ghost start = strs(logs@);
    let mut head = String::from_str("\n📊 Results (");
    let n = usize_to_string(rows.len());
    head.append(n.as_str());
    head.append(" 건):");
    logs.push(head);
    logs.push(rule());
    let ghost after_head = strs(logs@);
    assert(after_head =~= start + seq!["\n📊 Results ("@ + dec_string(rows@.len()) + " 건):"@, rule_line()]);
    let mut i: usize = 0;
    while i < rows.len()
        invariant
            i <= rows@.len(),
            rows@.len() < usize::MAX,
            strs(logs@) == after_head + row_lines(rows@, i as int),
        decreases rows@.len() - i,
    {
        let ghost before = strs(logs@);
        let mut tag = String::from_str("[");
        let k = usize_to_string(i + 1);
        tag.append(k.as_str());
        tag.append("]");
        let ghost tv = tag@;
        assert(tv == "["@ + dec_string((i + 1) as nat) + "]"@);
        logs.push(tag);
        let ghost with_tag = strs(logs@);
        assert(with_tag =~= before.push(tv));
        let row = &rows[i];
        let m = row.len();
        let mut j: usize = 0;
        while j < m
            invariant
                j <= m,
                m == row.entries().len(),
                strs(logs@) == with_tag + field_lines(row.entries(), j as int),
            decreases m - j,
        {
            let (key, val) = row.entry(j);
            let mut line = String::from_str("  ");
            line.append(key.as_str());
            line.append(": ");
            let s = shown_value(val.as_str());
            line.append(s.as_str());
            let ghost b2 = strs(logs@);
            logs.push(line);
            assert(strs(logs@) =~= b2.push("  "@ + key@ + ": "@ + shown(val@)));
            j = j + 1;
        }
        assert(row_lines(rows@, i + 1) == row_lines(rows@, i as int).push(tv) + field_lines(
            rows@[i as int].entries(),
            rows@[i as int].entries().len() as int,
        ));
        assert(strs(logs@) =~= after_head + row_lines(rows@, i + 1));
        i = i + 1;
    }
    let ghost before_rule = strs(logs@);
    logs.push(rule());
    assert(strs(logs@) =~= before_rule.push(rule_line()));
}

impl Workspace {
    /// Picks the browser kind; refused while a browser runs.
    pub fn set_browser_type(&mut self, t: BrowserType)
        ensures
            final(self).browser_type == if old(self).browser_running {
                old(self).browser_type
            } else {
                t
            },
            final(self).browser_running == old(self).browser_running,
            final(self).browser_status == old(self).browser_status,
            same_work(*old(self), *final(self)),
            same_lists(*old(self), *final(self)),
            final(self).logs == old(self).logs,
    {
        if !self.browser_running {
            self.browser_type = t;
        }
    }

    /// Sets the start page of runs.
    pub fn set_start_url(&mut self, url: String)
        ensures
            final(self).start_url == url,
            same_work(*old(self), *final(self)),
            same_lists(*old(self), *final(self)),
            final(self).logs == old(self).logs,
    {
        self.start_url = url;
    }

    /// Empties the log.
    pub fn clear_logs(&mut self)
        ensures
            final(self).logs@.len() == 0,
            same_work(*old(self), *final(self)),
            same_lists(*old(self), *final(self)),
            same_session(*old(self), *final(self)),
    {
        self.logs = Vec::new();
    }

    /// Passes a change to the test inputs.
    pub fn test_input(&mut self, msg: TestInputMsg)
        ensures
            final(self).test_inputs@.keys == old(self).test_inputs@.keys,
            final(self).test_inputs@.mapped == old(self).test_inputs@.mapped,
            match msg {
                TestInputMsg::ValueChanged(k, v) => final(self).test_inputs@.values == old(self).test_inputs@.values.insert(
                    k@,
                    v@,
                ),
                TestInputMsg::ClearAll => final(self).test_inputs@.values == Map::new(
                    |k: Seq<char>| old(self).test_inputs@.values.contains_key(k),
                    |k: Seq<char>| Seq::<char>::empty(),
                ),
                TestInputMsg::RefreshKeys => final(self).test_inputs@.values == old(self).test_inputs@.values,
            },
            final(self).workflow == old(self).workflow,
            same_lists(*old(self), *final(self)),
            same_session(*old(self), *final(self)),
            final(self).logs == old(self).logs,
    {
        self.test_inputs.update(msg);
    }

    /// Asks to open the browser: only when none runs.
    pub fn open_browser_request(&mut self) -> (go: bool)
        ensures
            go == !old(self).browser_running,
            final(self).browser_status@ == if go {
                "🚀 Starting browser_runner..."@
            } else {
                old(self).browser_status@
            },
            final(self).browser_running == old(self).browser_running,
            same_work(*old(self), *final(self)),
            same_lists(*old(self), *final(self)),
            final(self).logs == old(self).logs,
    {
        if self.browser_running {
            return false;
        }
        self.browser_status = String::from_str("🚀 Starting browser_runner...");
        true
    }

    /// What the runner answered to opening the browser.
    pub fn browser_opened(&mut self, result: Result<RunnerReply, String>)
        ensures
            same_work(*old(self), *final(self)),
            same_lists(*old(self), *final(self)),
            match result {
                Ok(RunnerReply::Parsed { logs, message, .. }) => {
                    &&& final(self).browser_running
                    &&& final(self).browser_status@ == "✅ "@ + message_or(message, "Browser opened"@)
                    &&& strs(final(self).logs@) == strs(old(self).logs@) + strs(logs@)
                },
                Ok(RunnerReply::Raw(text)) => {
                    &&& final(self).browser_running
                    &&& final(self).browser_status@ == "✅ "@ + text@
                    &&& strs(final(self).logs@) == strs(old(self).logs@).push("✅ "@ + text@)
                },
                Err(e) => {
                    &&& !final(self).browser_running
                    &&& final(self).browser_status@ == "❌ "@ + e@
                    &&& strs(final(self).logs@) == strs(old(self).logs@).push("❌ Failed to open browser: "@ + e@)
                },
            },
    {
        match result {
            Ok(RunnerReply::Parsed { logs, message, .. }) => {
                push_lines(&mut self.logs, logs);
                let mut st = String::from_str("✅ ");
                match &message {
                    Some(m) => st.append(m.as_str()),
                    None => st.append("Browser opened"),
                }
                self.browser_running = true;
                self.browser_status = st;
            },
            Ok(RunnerReply::Raw(text)) => {
                self.browser_running = true;
                let mut st = String::from_str("✅ ");
                st.append(text.as_str());
                self.browser_status = st.clone();
                self.log(st);
            },
            Err(e) => {
                self.browser_running = false;
                let mut st = String::from_str("❌ ");
                st.append(e.as_str());
                self.browser_status = st;
                let mut line = String::from_str("❌ Failed to open browser: ");
                line.append(e.as_str());
                self.log(line);
            },
        }
    }

    /// Asks to run the workflow: refused while a run is going, without
    /// handlers, or without a start page (the status says why). Otherwise
    /// the run starts and is logged, and the request carries a copy of the
    /// workflow under the current name (or `untitled`), the start page, the
    /// device and the test inputs.
    pub fn run_request(&mut self) -> (r: Option<RunRequest>)
        ensures
            ({
                let o = *old(self);
                let n = *final(self);
                &&& same_work(o, n)
                &&& same_lists(o, n)
                &&& n.browser_type == o.browser_type
                &&& n.browser_running == o.browser_running
                &&& if o.sequence_running {
                    r is None && n == o
                } else if o.workflow@.len() == 0 {
                    r is None && n.browser_status@ == "⚠️ No sequence to run"@ && n.logs == o.logs
                        && !n.sequence_running
                } else if o.start_url@.len() == 0 {
                    r is None && n.browser_status@ == "⚠️ Please enter a start URL"@ && n.logs == o.logs
                        && !n.sequence_running
                } else {
                    let name = match o.current_sequence_name {
                        Some(c) => c@,
                        None => "untitled"@,
                    };
                    &&& n.sequence_running
                    &&& n.browser_status@ == "▶️ Running sequence..."@
                    &&& strs(n.logs@) == strs(o.logs@) + seq![
                        "🚀 Starting sequence '"@ + name + "'"@,
                        "   📍 URL: "@ + o.start_url@,
                        "   📱 Device: "@ + match o.browser_type {
                            BrowserType::Desktop => "Desktop"@,
                            BrowserType::Mobile => "Mobile"@,
                        },
                    ]
                    &&& r matches Some(req) && built_from(req.sequence, name, o.workflow@) && req.start_url
                        == o.start_url && req.device@ == match o.browser_type {
                        BrowserType::Desktop => "desktop"@,
                        BrowserType::Mobile => "mobile"@,
                    } && req.inputs.texts() == o.test_inputs@.values
                }
            }),
    {
        if self.sequence_running {
            return None;
        }
        if self.workflow.len() == 0 {
            self.browser_status = String::from_str("⚠️ No sequence to run");
            return None;
        }
        if self.start_url.as_str().is_empty() {
            self.browser_status = String::from_str("⚠️ Please enter a start URL");
            return None;
        }
        self.sequence_running = true;
        self.browser_status = String::from_str("▶️ Running sequence...");
        let name = match &self.current_sequence_name {
            Some(c) => c.clone(),
            None => String::from_str("untitled"),
        };
        let ghost before = strs(self.logs@);
        let mut l1 = String::from_str("🚀 Starting sequence '");
        l1.append(name.as_str());
        l1.append("'");
        self.log(l1);
        let mut l2 = String::from_str("   📍 URL: ");
        l2.append(self.start_url.as_str());
        self.log(l2);
        let mut l3 = String::from_str("   📱 Device: ");
        l3.append(self.browser_type.label());
        self.log(l3);
        let sequence = build_sequence(name.as_str(), &self.workflow);
        Some(RunRequest {
            sequence,
            start_url: self.start_url.clone(),
            device: String::from_str(self.browser_type.device()),
            inputs: self.test_inputs.get_target_data(),
        })
    }

    /// What the runner answered to a run (or to a stop): the run is over;
    /// its log lines and the rows it found are logged and kept.
    pub fn sequence_finished(&mut self, result: Result<RunnerReply, String>)
        requires
            match result {
                Ok(RunnerReply::Parsed { data: Some(rows), .. }) => rows@.len() < usize::MAX,
                _ => true,
            },
        ensures
            ({
                let o = *old(self);
                let n = *final(self);
                &&& !n.sequence_running
                &&& same_work(o, n)
                &&& same_lists(o, n)
                &&& n.browser_running == o.browser_running
                &&& match result {
                    Ok(RunnerReply::Parsed { logs, message, data }) => {
                        &&& n.browser_status@ == "✅ "@ + message_or(message, "Execution complete"@)
                        &&& match data {
                            Some(rows) => {
                                &&& strs(n.logs@) == strs(o.logs@) + strs(logs@) + result_lines(rows@)
                                &&& n.last_result == Some(rows)
                            },
                            None => strs(n.logs@) == strs(o.logs@) + strs(logs@) && n.last_result == o.last_result,
                        }
                    },
                    Ok(RunnerReply::Raw(text)) => {
                        &&& n.browser_status@ == "✅ "@ + text@
                        &&& strs(n.logs@) == strs(o.logs@).push("✅ "@ + text@)
                        &&& n.last_result == o.last_result
                    },
                    Err(e) => {
                        &&& n.browser_status@ == "❌ "@ + e@
                        &&& strs(n.logs@) == strs(o.logs@).push("❌ Sequence execution failed: "@ + e@)
                        &&& n.last_result is None
                    },
                }
            }),
    {
        self.sequence_running = false;
        match result {
            Ok(RunnerReply::Parsed { logs, message, data }) => {
                push_lines(&mut self.logs, logs);
                let mut st = String::from_str("✅ ");
                match &message {
                    Some(m) => st.append(m.as_str()),
                    None => st.append("Execution complete"),
                }
                self.browser_status = st;
                match data {
                    Some(rows) => {
                        push_result_lines(&mut self.logs, &rows);
                        self.last_result = Some(rows);
                    },
                    None => {},
                }
            },
            Ok(RunnerReply::Raw(text)) => {
                let mut st = String::from_str("✅ ");
                st.append(text.as_str());
                self.browser_status = st.clone();
                self.log(st);
            },
            Err(e) => {
                let mut st = String::from_str("❌ ");
                st.append(e.as_str());
                self.browser_status = st;
                let mut line = String::from_str("❌ Sequence execution failed: ");
                line.append(e.as_str());
                self.log(line);
                self.last_result = None;
            },
        }
    }

    /// Asks to stop the run: only while one is going.
    pub fn stop_request(&mut self) -> (go: bool)
        ensures
            go == old(self).sequence_running,
            final(self).browser_status@ == if go {
                "⏹️ Stopping sequence..."@
            } else {
                old(self).browser_status@
            },
            final(self).sequence_running == old(self).sequence_running,
            final(self).browser_running == old(self).browser_running,
            same_work(*old(self), *final(self)),
            same_lists(*old(self), *final(self)),
            final(self).logs == old(self).logs,
    {
        if !self.sequence_running {
            return false;
        }
        self.browser_status = String::from_str("⏹️ Stopping sequence...");
        true
    }

    /// Asks to close the browser: only while one runs.
    pub fn close_request(&mut self) -> (go: bool)
        ensures
            go == old(self).browser_running,
            final(self).browser_status@ == if go {
                "⏹️ Closing browser..."@
            } else {
                old(self).browser_status@
            },
            final(self).browser_running == old(self).browser_running,
            same_work(*old(self), *final(self)),
            same_lists(*old(self), *final(self)),
            final(self).logs == old(self).logs,
    {
        if !self.browser_running {
            return false;
        }
        self.browser_status = String::from_str("⏹️ Closing browser...");
        true
    }

    /// What the runner answered to closing the browser: it no longer runs.
    pub fn browser_closed(&mut self, result: Result<RunnerReply, String>)
        ensures
            !final(self).browser_running,
            same_work(*old(self), *final(self)),
            same_lists(*old(self), *final(self)),
            match result {
                Ok(RunnerReply::Parsed { logs, message, .. }) => {
                    &&& final(self).browser_status@ == "⏹️ "@ + message_or(message, "Browser closed"@)
                    &&& strs(final(self).logs@) == strs(old(self).logs@) + strs(logs@)
                },
                Ok(RunnerReply::Raw(_)) => {
                    &&& final(self).browser_status@ == "⏹️ Browser closed"@
                    &&& strs(final(self).logs@) == strs(old(self).logs@).push("⏹️ Browser closed"@)
                },
                Err(e) => {
                    &&& final(self).browser_status@ == "⚠️ "@ + e@
                    &&& strs(final(self).logs@) == strs(old(self).logs@).push("⚠️ Browser close error: "@ + e@)
                },
            },
    {
        self.browser_running = false;
        match result {
            Ok(RunnerReply::Parsed { logs, message, .. }) => {
                push_lines(&mut self.logs, logs);
                let mut st = String::from_str("⏹️ ");
                match &message {
                    Some(m) => st.append(m.as_str()),
                    None => st.append("Browser closed"),
                }
                self.browser_status = st;
            },
            Ok(RunnerReply::Raw(_)) => {
                self.browser_status = String::from_str("⏹️ Browser closed");
                self.log(String::from_str("⏹️ Browser closed"));
            },
            Err(e) => {
                let mut st = String::from_str("⚠️ ");
                st.append(e.as_str());
                self.browser_status = st;
                let mut line = String::from_str("⚠️ Browser close error: ");
                line.append(e.as_str());
                self.log(line);
            },
        }
    }

    /// Logs that the editor is exiting.
    pub fn exit_request(&mut self)
        ensures
            strs(final(self).logs@) == strs(old(self).logs@).push(
                "🔴 Exiting... sending shutdown signal to browser_runner"@,
            ),
            same_work(*old(self), *final(self)),
            same_lists(*old(self), *final(self)),
            same_session(*old(self), *final(self)),
    {
        self.log(String::from_str("🔴 Exiting... sending shutdown signal to browser_runner"));
    }
}

} // verus!
