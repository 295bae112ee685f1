//! Binding keys: the names of the bindings that a sequence's parameters
//! read, kept as a sorted list without repeats.
use vstd::prelude::*;
use crate::text::{chars_of, has_prefix, starts_with, str_eq, string_of_range};
use crate::workflow::{Action, BindValue, Extraction, Handler, Sequence, Step};

verus! {

// ---------------------------------------------------------------------
// The order of strings
// ---------------------------------------------------------------------

/// `a` comes before `b` when compared from position `i` on, character by
/// character, a proper prefix first.
pub open spec fn lt_from(a: Seq<char>, b: Seq<char>, i: int) -> bool
    decreases a.len() - i,
{
    if i < 0 || i >= b.len() {
        false
    } else if i >= a.len() {
        true
    } else if a[i] != b[i] {
        (a[i] as int) < (b[i] as int)
    } else {
        lt_from(a, b, i + 1)
    }
}

/// The order of `String`: lexicographic on the characters (the order of
/// their UTF-8 bytes).
pub open spec fn key_lt(a: Seq<char>, b: Seq<char>) -> bool {
    lt_from(a, b, 0)
}

proof fn lemma_lt_from_irrefl(a: Seq<char>, i: int)
    requires
        0 <= i,
    ensures
        !lt_from(a, a, i),
    decreases a.len() - i,
{
    if i < a.len() {
        lemma_lt_from_irrefl(a, i + 1);
    }
}

proof fn lemma_lt_from_trans(a: Seq<char>, b: Seq<char>, c: Seq<char>, i: int)
    requires
        0 <= i,
        lt_from(a, b, i),
        lt_from(b, c, i),
    ensures
        lt_from(a, c, i),
    decreases a.len() - i,
{
    if i < a.len() && i < b.len() && i < c.len() && a[i] == b[i] && b[i] == c[i] {
        lemma_lt_from_trans(a, b, c, i + 1);
    }
}

/// Two strings that agree below `i` and differ are ordered one way or the other.
proof fn lemma_lt_from_total(a: Seq<char>, b: Seq<char>, i: int)
    requires
        0 <= i <= a.len(),
        i <= b.len(),
        a.subrange(0, i) == b.subrange(0, i),
        a != b,
    ensures
        lt_from(a, b, i) || lt_from(b, a, i),
    decreases a.len() - i,
{
    if i < a.len() && i < b.len() {
        if a[i] == b[i] {
            assert(a.subrange(0, i + 1) =~= a.subrange(0, i).push(a[i]));
            assert(b.subrange(0, i + 1) =~= b.subrange(0, i).push(b[i]));
            lemma_lt_from_total(a, b, i + 1);
        } else {
            assert((a[i] as int) != (b[i] as int));
        }
    } else if i == a.len() && i == b.len() {
        assert(a =~= a.subrange(0, i));
        assert(b =~= b.subrange(0, i));
    }
}

/// `key_lt` is a strict total order.
pub proof fn lemma_key_lt_order()
    ensures
        forall|a: Seq<char>| !#[trigger] key_lt(a, a),
        forall|a: Seq<char>, b: Seq<char>, c: Seq<char>|
            #[trigger] key_lt(a, b) && #[trigger] key_lt(b, c) ==> key_lt(a, c),
        forall|a: Seq<char>, b: Seq<char>| a != b ==> #[trigger] key_lt(a, b) || #[trigger] key_lt(b, a),
{
    assert forall|a: Seq<char>| !#[trigger] key_lt(a, a) by {
        lemma_lt_from_irrefl(a, 0);
    }
    assert forall|a: Seq<char>, b: Seq<char>, c: Seq<char>|
        #[trigger] key_lt(a, b) && #[trigger] key_lt(b, c) implies key_lt(a, c) by {
        lemma_lt_from_trans(a, b, c, 0);
    }
    assert forall|a: Seq<char>, b: Seq<char>| a != b implies #[trigger] key_lt(a, b) || #[trigger] key_lt(
        b,
        a,
    ) by {
        assert(a.subrange(0, 0) =~= b.subrange(0, 0));
        lemma_lt_from_total(a, b, 0);
    }
}

/// Whether `a` sorts before `b`.
pub fn str_lt(a: &str, b: &str) -> (r: bool)
    ensures
        r == key_lt(a@, b@),
{
    let x = chars_of(a);
    let y = chars_of(b);
    let mut i: usize = 0;
    while i < x.len() && i < y.len()
        invariant
            x@ == a@,
            y@ == b@,
            i <= x@.len(),
            i <= y@.len(),
            lt_from(a@, b@, 0) == lt_from(a@, b@, i as int),
        decreases x@.len() - i,
    {
        if x[i] != y[i] {
            return x[i] < y[i];
        }
        i = i + 1;
    }
    i < y.len()
}

// ---------------------------------------------------------------------
// Sorted lists of keys
// ---------------------------------------------------------------------

/// The texts of a list of strings.
pub open spec fn strs(v: Seq<String>) -> Seq<Seq<char>> {
    v.map_values(|s: String| s@)
}

/// Each key sorts before the next: the list is sorted and has no repeats.
pub open spec fn strictly_sorted(s: Seq<Seq<char>>) -> bool {
    forall|i: int, j: int| 0 <= i < j < s.len() ==> key_lt(#[trigger] s[i], #[trigger] s[j])
}

/// Adds `k` to a sorted list without repeats, keeping it so.
pub fn insert_sorted(v: &mut Vec<String>, k: String)
    requires
        strictly_sorted(strs(old(v)@)),
    ensures
        strictly_sorted(strs(final(v)@)),
        forall|x: Seq<char>| strs(final(v)@).contains(x) <==> (strs(old(v)@).contains(x) || x == k@),
{
    proof {
        lemma_key_lt_order();
    }
    let ghost s0 = strs(v@);
    let mut j: usize = 0;
    let mut stop = false;
    while j < v.len() && !stop
        invariant
            j <= v@.len(),
            v@ == old(v)@,
            s0 == strs(v@),
            strictly_sorted(s0),
            forall|i: int| 0 <= i < j ==> key_lt(#[trigger] s0[i], k@),
            stop ==> j < v@.len() && !key_lt(s0[j as int], k@),
        decreases v@.len() - j + (if stop { 0int } else { 1int }),
    {
        if str_lt(v[j].as_str(), k.as_str()) {
            j = j + 1;
        } else {
            stop = true;
        }
    }
    if stop && !str_lt(k.as_str(), v[j].as_str()) {
        // neither sorts before the other: `k` is already there
        assert(s0[j as int] == v@[j as int]@);
        assert(s0[j as int] == k@);
        assert(s0.contains(k@));
        return;
    }
    let ghost kv = k@;
    v.insert(j, k);
    proof {
        let s1 = strs(v@);
        assert(s1 =~= s0.insert(j as int, kv));
        assert forall|a: int, b: int| 0 <= a < b < s1.len() implies key_lt(#[trigger] s1[a], #[trigger] s1[b]) by {
            if b < j {
            } else if a < j && b == j {
            } else if a < j && b > j {
                assert(s1[b] == s0[b - 1]);
                assert(key_lt(s0[a], s0[b - 1]));
            } else if a == j {
                assert(s1[b] == s0[b - 1]);
                if j < s0.len() {
                    assert(key_lt(kv, s0[j as int]));
                    if b - 1 > j {
                        assert(key_lt(s0[j as int], s0[b - 1]));
                    }
                }
            } else {
                assert(s1[a] == s0[a - 1]);
                assert(s1[b] == s0[b - 1]);
            }
        }
        assert forall|x: Seq<char>| s1.contains(x) <==> (s0.contains(x) || x == kv) by {
            if s1.contains(x) {
                let t = choose|t: int| 0 <= t < s1.len() && s1[t] == x;
                if t < j {
                    assert(s0[t] == x);
                } else if t > j {
                    assert(s0[t - 1] == x);
                }
            }
            if s0.contains(x) {
                let t = choose|t: int| 0 <= t < s0.len() && s0[t] == x;
                if t < j {
                    assert(s1[t] == x);
                } else {
                    assert(s1[t + 1] == x);
                }
            }
            if x == kv {
                assert(s1[j as int] == x);
            }
        }
    }
}

// ---------------------------------------------------------------------
// The keys a sequence reads
// ---------------------------------------------------------------------

/// The key a parameter binds, as a list of at most one: its binding, when
/// that has a nonempty name.
pub open spec fn bound_key<T>(b: BindValue<T>) -> Seq<Seq<char>> {
    match b.binding {
        Some(k) => if k@.len() > 0 {
            seq![k@]
        } else {
            Seq::empty()
        },
        None => Seq::empty(),
    }
}

/// The keys an action's parameters bind, in parameter order.
pub open spec fn action_keys(a: Action) -> Seq<Seq<char>> {
    match a {
        Action::Click { selector_string } => bound_key(selector_string),
        Action::Navigate { url } => bound_key(url),
        Action::WaitFor { selector_string, time_ms } => bound_key(selector_string) + bound_key(time_ms),
        Action::ClickByText { selector_string, text } => bound_key(selector_string) + bound_key(text),
        Action::GetHTML { selector_string, time_ms } => bound_key(selector_string) + bound_key(time_ms),
        Action::SwitchToFrame { selector_string } => bound_key(selector_string),
        Action::NewTab { url } => bound_key(url),
        Action::SwitchTab { index } => bound_key(index),
        Action::Type { selector, text } => bound_key(selector) + bound_key(text),
        Action::ClearAndType { selector, text } => bound_key(selector) + bound_key(text),
        Action::NavigateHref { base, href } => bound_key(base) + bound_key(href),
        Action::ScrollDown { scroll } => bound_key(scroll),
        Action::ScrollUp { scroll } => bound_key(scroll),
        Action::Wait { time_ms } => bound_key(time_ms),
        _ => Seq::empty(),
    }
}

/// The keys an extraction's parameters bind, in parameter order.
pub open spec fn extraction_keys(e: Extraction) -> Seq<Seq<char>> {
    match e {
        Extraction::Attribute { selector_string, field_name, attr_str } => bound_key(selector_string)
            + bound_key(field_name) + bound_key(attr_str),
        _ => bound_key(e.selector_param()) + bound_key(e.field_param()),
    }
}

/// The keys the steps among `steps[..n]` bind, actions and extractions
/// alike (a container performs its actions in each element).
pub open spec fn steps_keys(steps: Seq<Step>, n: int) -> Seq<Seq<char>>
    decreases n,
{
    if n <= 0 || n > steps.len() {
        Seq::empty()
    } else {
        steps_keys(steps, n - 1) + match steps[n - 1] {
            Step::Extract(e) => extraction_keys(e),
            Step::Act(a) => action_keys(a),
        }
    }
}

/// The index of the first `:` in `s` at or after `i`, or the length of `s`.
pub open spec fn colon_from(s: Seq<char>, i: int) -> int
    decreases s.len() - i,
{
    if i < 0 || i >= s.len() {
        s.len() as int
    } else if s[i] == ':' {
        i
    } else {
        colon_from(s, i + 1)
    }
}

/// The binding key a `mapping:key:source` metadata line names: the text
/// after `mapping:` up to the next `:`.
pub open spec fn mapping_key(meta: Seq<char>) -> Option<Seq<char>> {
    if has_prefix(meta, "mapping:"@) {
        let rest = meta.subrange(8, meta.len() as int);
        Some(rest.subrange(0, colon_from(rest, 0)))
    } else {
        None
    }
}

/// The keys that the mapping lines among `meta[..n]` name.
pub open spec fn meta_mapped(meta: Seq<String>, n: int) -> Seq<Seq<char>>
    decreases n,
{
    if n <= 0 || n > meta.len() {
        Seq::empty()
    } else {
        meta_mapped(meta, n - 1) + match mapping_key(meta[n - 1]@) {
            Some(k) => seq![k],
            None => Seq::<Seq<char>>::empty(),
        }
    }
}

/// The keys a handler binds (nested sub-sequences included), and the keys
/// that the mapping lines of its nested sub-sequences name.
pub open spec fn handler_scan(h: Handler) -> (Seq<Seq<char>>, Seq<Seq<char>>)
    decreases h, 0int,
{
    match h {
        Handler::Item(Step::Act(a)) => (action_keys(a), Seq::empty()),
        Handler::Item(Step::Extract(e)) => (extraction_keys(e), Seq::empty()),
        Handler::Container { selector, steps, .. } => (
            bound_key(selector) + steps_keys(steps@, steps@.len() as int),
            Seq::empty(),
        ),
        Handler::SubSequence(s) => {
            let inner = handlers_scan(s.step_sequence@, s.step_sequence@.len() as int);
            (inner.0, meta_mapped(s.metadata@, s.metadata@.len() as int) + inner.1)
        },
    }
}

/// `handler_scan` over `hs[..n]`, in order.
pub open spec fn handlers_scan(hs: Seq<Handler>, n: int) -> (Seq<Seq<char>>, Seq<Seq<char>>)
    decreases hs, n,
{
    if n <= 0 || n > hs.len() {
        (Seq::empty(), Seq::empty())
    } else {
        let a = handlers_scan(hs, n - 1);
        let b = handler_scan(hs[n - 1]);
        (a.0 + b.0, a.1 + b.1)
    }
}

/// The keys a list of handlers binds, less those that mapping lines supply.
pub open spec fn free_keys(hs: Seq<Handler>) -> Set<Seq<char>> {
    let sc = handlers_scan(hs, hs.len() as int);
    Set::new(|k: Seq<char>| sc.0.contains(k) && !sc.1.contains(k))
}

// ---------------------------------------------------------------------
// Collecting keys
// ---------------------------------------------------------------------

/// Whether `k` is among the strings of `v`.
pub fn contains_str(v: &Vec<String>, k: &str) -> (b: bool)
    ensures
        b == strs(v@).contains(k@),
{
    let ghost sv = strs(v@);
    let mut i: usize = 0;
    while i < v.len()
        invariant
            i <= v@.len(),
            sv == strs(v@),
            forall|j: int| 0 <= j < i ==> sv[j] != k@,
        decreases v@.len() - i,
    {
        if str_eq(v[i].as_str(), k) {
            assert(sv[i as int] == k@);
            return true;
        }
        i = i + 1;
    }
    false
}

fn push_bound<T>(b: &BindValue<T>, keys: &mut Vec<String>)
    ensures
        strs(final(keys)@) == strs(old(keys)@) + bound_key(*b),
{
    let ghost before = strs(keys@);
    if let Some(k) = &b.binding {
        if !k.as_str().is_empty() {
            keys.push(k.clone());
            assert(strs(keys@) =~= before + seq![k@]);
            return;
        }
    }
    assert(strs(keys@) =~= before + bound_key(*b));
}

fn push_bound2<T, U>(x: &BindValue<T>, y: &BindValue<U>, keys: &mut Vec<String>)
    ensures
        strs(final(keys)@) == strs(old(keys)@) + (bound_key(*x) + bound_key(*y)),
{
    push_bound(x, keys);
    push_bound(y, keys);
    assert(strs(keys@) =~= strs(old(keys)@) + (bound_key(*x) + bound_key(*y)));
}

fn collect_action(a: &Action, keys: &mut Vec<String>)
    ensures
        strs(final(keys)@) == strs(old(keys)@) + action_keys(*a),
{
    match a {
        Action::Click { selector_string } => push_bound(selector_string, keys),
        Action::Navigate { url } => push_bound(url, keys),
        Action::WaitFor { selector_string, time_ms } => push_bound2(selector_string, time_ms, keys),
        Action::ClickByText { selector_string, text } => push_bound2(selector_string, text, keys),
        Action::GetHTML { selector_string, time_ms } => push_bound2(selector_string, time_ms, keys),
        Action::SwitchToFrame { selector_string } => push_bound(selector_string, keys),
        Action::NewTab { url } => push_bound(url, keys),
        Action::SwitchTab { index } => push_bound(index, keys),
        Action::Type { selector, text } => push_bound2(selector, text, keys),
        Action::ClearAndType { selector, text } => push_bound2(selector, text, keys),
        Action::NavigateHref { base, href } => push_bound2(base, href, keys),
        Action::ScrollDown { scroll } => push_bound(scroll, keys),
        Action::ScrollUp { scroll } => push_bound(scroll, keys),
        Action::Wait { time_ms } => push_bound(time_ms, keys),
        _ => {
            assert(strs(keys@) =~= strs(old(keys)@) + action_keys(*a));
        },
    }
}

fn collect_extraction(e: &Extraction, keys: &mut Vec<String>)
    ensures
        strs(final(keys)@) == strs(old(keys)@) + extraction_keys(*e),
{
    match e {
        Extraction::Attribute { selector_string, field_name, attr_str } => {
            push_bound2(selector_string, field_name, keys);
            push_bound(attr_str, keys);
            assert(strs(keys@) =~= strs(old(keys)@) + extraction_keys(*e));
        },
        Extraction::Text { selector_string, field_name } => push_bound2(selector_string, field_name, keys),
        Extraction::Count { selector_string, field_name } => push_bound2(selector_string, field_name, keys),
        Extraction::Exists { selector_string, field_name } => push_bound2(selector_string, field_name, keys),
        Extraction::MultipleText { selector_string, field_name } => push_bound2(
            selector_string,
            field_name,
            keys,
        ),
    }
}

fn collect_steps(steps: &Vec<Step>, keys: &mut Vec<String>)
    ensures
        strs(final(keys)@) == strs(old(keys)@) + steps_keys(steps@, steps@.len() as int),
{
    let mut i: usize = 0;
    assert(strs(keys@) =~= strs(old(keys)@) + steps_keys(steps@, 0));
    while i < steps.len()
        invariant
            i <= steps@.len(),
            strs(keys@) == strs(old(keys)@) + steps_keys(steps@, i as int),
        decreases steps@.len() - i,
    {
        let ghost before = strs(keys@);
        match &steps[i] {
            Step::Extract(e) => {
                collect_extraction(e, keys);
            },
            Step::Act(a) => {
                collect_action(a, keys);
            },
        }
        assert(strs(keys@) =~= strs(old(keys)@) + steps_keys(steps@, i + 1));
        i = i + 1;
    }
}

/// The binding key that a `mapping:key:source` line names.
pub fn mapping_key_of(meta: &str) -> (r: Option<String>)
    ensures
        match r {
            Some(k) => mapping_key(meta@) == Some(k@),
            None => mapping_key(meta@) is None,
        },
{
    proof {
        reveal_strlit("mapping:");
    }
    if !starts_with(meta, "mapping:") {
        return None;
    }
    let v = chars_of(meta);
    let ghost rest = meta@.subrange(8, meta@.len() as int);
    let mut c: usize = 8;
    while c < v.len() && v[c] != ':'
        invariant
            8 <= c <= v@.len(),
            v@ == meta@,
            rest == meta@.subrange(8, meta@.len() as int),
            colon_from(rest, c - 8) == colon_from(rest, 0),
        decreases v@.len() - c,
    {
        assert(rest[c - 8] == v@[c as int]);
        c = c + 1;
    }
    assert(colon_from(rest, c - 8) == c - 8);
    let k = string_of_range(&v, 8, c);
    assert(k@ =~= rest.subrange(0, colon_from(rest, 0)));
    Some(k)
}

fn collect_meta(meta: &Vec<String>, mapped: &mut Vec<String>)
    ensures
        strs(final(mapped)@) == strs(old(mapped)@) + meta_mapped(meta@, meta@.len() as int),
{
    let mut i: usize = 0;
    assert(strs(mapped@) =~= strs(old(mapped)@) + meta_mapped(meta@, 0));
    while i < meta.len()
        invariant
            i <= meta@.len(),
            strs(mapped@) == strs(old(mapped)@) + meta_mapped(meta@, i as int),
        decreases meta@.len() - i,
    {
        let ghost before = strs(mapped@);
        let ghost mk = mapping_key(meta@[i as int]@);
        match mapping_key_of(meta[i].as_str()) {
            Some(k) => {
                let ghost kv = k@;
                mapped.push(k);
                assert(mk == Some(kv));
                assert(strs(mapped@) =~= before.push(kv));
            },
            None => {
                assert(mk is None);
            },
        }
        assert(meta_mapped(meta@, i + 1) == meta_mapped(meta@, i as int) + match mk {
            Some(k) => seq![k],
            None => Seq::<Seq<char>>::empty(),
        });
        assert(strs(mapped@) =~= strs(old(mapped)@) + meta_mapped(meta@, i + 1));
        i = i + 1;
    }
}

pub fn collect_handler(h: &Handler, keys: &mut Vec<String>, mapped: &mut Vec<String>)
    ensures
        strs(final(keys)@) == strs(old(keys)@) + handler_scan(*h).0,
        strs(final(mapped)@) == strs(old(mapped)@) + handler_scan(*h).1,
    decreases h, 0nat,
{
    match h {
        Handler::Item(Step::Act(a)) => {
            collect_action(a, keys);
            assert(strs(mapped@) =~= strs(old(mapped)@) + handler_scan(*h).1);
        },
        Handler::Item(Step::Extract(e)) => {
            collect_extraction(e, keys);
            assert(strs(mapped@) =~= strs(old(mapped)@) + handler_scan(*h).1);
        },
        Handler::Container { selector, steps, .. } => {
            push_bound(selector, keys);
            collect_steps(steps, keys);
            assert(strs(keys@) =~= strs(old(keys)@) + handler_scan(*h).0);
            assert(strs(mapped@) =~= strs(old(mapped)@) + handler_scan(*h).1);
        },
        Handler::SubSequence(s) => {
            collect_meta(&s.metadata, mapped);
            collect_handlers(&s.step_sequence, keys, mapped);
            assert(strs(mapped@) =~= strs(old(mapped)@) + handler_scan(*h).1);
        },
    }
}

pub fn collect_handlers(v: &Vec<Handler>, keys: &mut Vec<String>, mapped: &mut Vec<String>)
    ensures
        strs(final(keys)@) == strs(old(keys)@) + handlers_scan(v@, v@.len() as int).0,
        strs(final(mapped)@) == strs(old(mapped)@) + handlers_scan(v@, v@.len() as int).1,
    decreases v, 1nat,
{
    let mut i: usize = 0;
    assert(strs(keys@) =~= strs(old(keys)@) + handlers_scan(v@, 0).0);
    assert(strs(mapped@) =~= strs(old(mapped)@) + handlers_scan(v@, 0).1);
    while i < v.len()
        invariant
            i <= v@.len(),
            strs(keys@) == strs(old(keys)@) + handlers_scan(v@, i as int).0,
            strs(mapped@) == strs(old(mapped)@) + handlers_scan(v@, i as int).1,
        decreases v@.len() - i,
    {
        assert(decreases_to!(v => v@[i as int]));
        collect_handler(&v[i], keys, mapped);
        assert(strs(keys@) =~= strs(old(keys)@) + handlers_scan(v@, i + 1).0);
        assert(strs(mapped@) =~= strs(old(mapped)@) + handlers_scan(v@, i + 1).1);
        i = i + 1;
    }
}

/// The distinct strings of `keys` that `excluded` lacks, sorted.
pub fn sorted_keys(keys: &Vec<String>, excluded: &Vec<String>) -> (r: Vec<String>)
    ensures
        strictly_sorted(strs(r@)),
        forall|x: Seq<char>| strs(r@).contains(x) <==> (strs(keys@).contains(x) && !strs(excluded@).contains(x)),
{
    let mut r: Vec<String> = Vec::new();
    let mut i: usize = 0;
    assert(strs(r@) =~= Seq::<Seq<char>>::empty());
    while i < keys.len()
        invariant
            i <= keys@.len(),
            strictly_sorted(strs(r@)),
            forall|x: Seq<char>| strs(r@).contains(x) <==> (strs(keys@).subrange(0, i as int).contains(x)
                && !strs(excluded@).contains(x)),
        decreases keys@.len() - i,
    {
        let ghost pre = strs(keys@).subrange(0, i as int);
        let ghost nxt = strs(keys@).subrange(0, i + 1);
        assert(nxt =~= pre.push(keys@[i as int]@));
        if !contains_str(excluded, keys[i].as_str()) {
            insert_sorted(&mut r, keys[i].clone());
        }
        assert forall|x: Seq<char>| strs(r@).contains(x) <==> (nxt.contains(x) && !strs(excluded@).contains(x)) by {
            if nxt.contains(x) {
                let t = choose|t: int| 0 <= t < nxt.len() && nxt[t] == x;
                if t < i {
                    assert(pre[t] == x);
                }
            }
            if pre.contains(x) {
                let t = choose|t: int| 0 <= t < pre.len() && pre[t] == x;
                assert(nxt[t] == x);
            }
            assert(nxt[i as int] == keys@[i as int]@);
        }
        i = i + 1;
    }
    assert(strs(keys@).subrange(0, keys@.len() as int) =~= strs(keys@));
    r
}

/// The binding keys that the handlers of `seq` read, nested sub-sequences
/// included: each once, sorted.
pub fn extract_binding_keys_from_sequence(seq: &Sequence) -> (r: Vec<String>)
    ensures
        strictly_sorted(strs(r@)),
        forall|x: Seq<char>|
            strs(r@).contains(x) <==> handlers_scan(seq.step_sequence@, seq.step_sequence@.len() as int).0.contains(x),
{
    let mut keys: Vec<String> = Vec::new();
    let mut mapped: Vec<String> = Vec::new();
    collect_handlers(&seq.step_sequence, &mut keys, &mut mapped);
    assert(strs(keys@) =~= handlers_scan(seq.step_sequence@, seq.step_sequence@.len() as int).0);
    let none: Vec<String> = Vec::new();
    assert(strs(none@) =~= Seq::<Seq<char>>::empty());
    sorted_keys(&keys, &none)
}

/// Whether the parameter `b` is bound to the (nonempty) name `k`.
pub open spec fn names_key<T>(b: BindValue<T>, k: Seq<char>) -> bool {
    b.binding matches Some(n) && n@ == k && k.len() > 0
}

/// Whether some parameter of the action `a` is bound to the name `k`.
pub open spec fn action_reads(a: Action, k: Seq<char>) -> bool {
    match a {
        Action::Click { selector_string } => names_key(selector_string, k),
        Action::Navigate { url } => names_key(url, k),
        Action::NavigateHref { base, href } => names_key(base, k) || names_key(href, k),
        Action::Wait { time_ms } => names_key(time_ms, k),
        Action::WaitFor { selector_string, time_ms } => names_key(selector_string, k) || names_key(time_ms, k),
        Action::ScrollDown { scroll } => names_key(scroll, k),
        Action::ScrollUp { scroll } => names_key(scroll, k),
        Action::ClickByText { selector_string, text } => names_key(selector_string, k) || names_key(text, k),
        Action::GetHTML { selector_string, time_ms } => names_key(selector_string, k) || names_key(time_ms, k),
        Action::SwitchToFrame { selector_string } => names_key(selector_string, k),
        Action::NewTab { url } => names_key(url, k),
        Action::SwitchTab { index } => names_key(index, k),
        Action::Type { selector, text } => names_key(selector, k) || names_key(text, k),
        Action::ClearAndType { selector, text } => names_key(selector, k) || names_key(text, k),
        _ => false,
    }
}

proof fn lemma_contains_left(a: Seq<Seq<char>>, b: Seq<Seq<char>>, k: Seq<char>)
    requires
        a.contains(k),
    ensures
        (a + b).contains(k),
{
    let i = choose|i: int| 0 <= i < a.len() && a[i] == k;
    assert((a + b)[i] == k);
}

proof fn lemma_contains_right(a: Seq<Seq<char>>, b: Seq<Seq<char>>, k: Seq<char>)
    requires
        b.contains(k),
    ensures
        (a + b).contains(k),
{
    let i = choose|i: int| 0 <= i < b.len() && b[i] == k;
    assert((a + b)[a.len() + i] == k);
}

proof fn lemma_bound_key_contains<T>(b: BindValue<T>, k: Seq<char>)
    ensures
        bound_key(b).contains(k) <==> names_key(b, k),
{
    if names_key(b, k) {
        assert(bound_key(b)[0] == k);
    }
}

proof fn lemma_pair_contains<T, U>(b: BindValue<T>, c: BindValue<U>, k: Seq<char>)
    ensures
        (bound_key(b) + bound_key(c)).contains(k) <==> (names_key(b, k) || names_key(c, k)),
{
    lemma_bound_key_contains(b, k);
    lemma_bound_key_contains(c, k);
    if names_key(b, k) {
        lemma_contains_left(bound_key(b), bound_key(c), k);
    } else if names_key(c, k) {
        lemma_contains_right(bound_key(b), bound_key(c), k);
    } else if (bound_key(b) + bound_key(c)).contains(k) {
        let i = choose|i: int| 0 <= i < (bound_key(b) + bound_key(c)).len() && (bound_key(b) + bound_key(c))[i] == k;
        if i < bound_key(b).len() {
            assert(bound_key(b)[i] == k);
        } else {
            assert(bound_key(c)[i - bound_key(b).len()] == k);
        }
    }
}

/// The keys listed for an action are exactly the names its parameters are
/// bound to: every parameter bound to a nonempty name contributes it, and
/// nothing else is listed.
pub proof fn law_action_keys_are_its_bindings(a: Action, k: Seq<char>)
    ensures
        action_keys(a).contains(k) <==> action_reads(a, k),
{
    match a {
        Action::Click { selector_string } => lemma_bound_key_contains(selector_string, k),
        Action::Navigate { url } => lemma_bound_key_contains(url, k),
        Action::NavigateHref { base, href } => lemma_pair_contains(base, href, k),
        Action::Wait { time_ms } => lemma_bound_key_contains(time_ms, k),
        Action::WaitFor { selector_string, time_ms } => lemma_pair_contains(selector_string, time_ms, k),
        Action::ScrollDown { scroll } => lemma_bound_key_contains(scroll, k),
        Action::ScrollUp { scroll } => lemma_bound_key_contains(scroll, k),
        Action::ClickByText { selector_string, text } => lemma_pair_contains(selector_string, text, k),
        Action::GetHTML { selector_string, time_ms } => lemma_pair_contains(selector_string, time_ms, k),
        Action::SwitchToFrame { selector_string } => lemma_bound_key_contains(selector_string, k),
        Action::NewTab { url } => lemma_bound_key_contains(url, k),
        Action::SwitchTab { index } => lemma_bound_key_contains(index, k),
        Action::Type { selector, text } => lemma_pair_contains(selector, text, k),
        Action::ClearAndType { selector, text } => lemma_pair_contains(selector, text, k),
        _ => {},
    }
}

proof fn lemma_steps_keys_contain(steps: Seq<Step>, n: int, j: int, k: Seq<char>)
    requires
        0 <= j < n <= steps.len(),
        steps[j] matches Step::Act(a) && action_reads(a, k),
    ensures
        steps_keys(steps, n).contains(k),
    decreases n,
{
    if let Step::Act(a) = steps[j] {
        law_action_keys_are_its_bindings(a, k);
        if j == n - 1 {
            lemma_contains_right(steps_keys(steps, n - 1), action_keys(a), k);
        } else {
            lemma_steps_keys_contain(steps, n - 1, j, k);
            let last = match steps[n - 1] {
                Step::Extract(e) => extraction_keys(e),
                Step::Act(b) => action_keys(b),
            };
            lemma_contains_left(steps_keys(steps, n - 1), last, k);
        }
    }
}

proof fn lemma_handlers_scan_contain(hs: Seq<Handler>, n: int, i: int, k: Seq<char>)
    requires
        0 <= i < n <= hs.len(),
        handler_scan(hs[i]).0.contains(k),
    ensures
        handlers_scan(hs, n).0.contains(k),
    decreases n,
{
    if i == n - 1 {
        lemma_contains_right(handlers_scan(hs, n - 1).0, handler_scan(hs[n - 1]).0, k);
    } else {
        lemma_handlers_scan_contain(hs, n - 1, i, k);
        lemma_contains_left(handlers_scan(hs, n - 1).0, handler_scan(hs[n - 1]).0, k);
    }
}

/// Every name that an action's parameter is bound to is among the keys a
/// list of handlers reads: for an action handler of the list, and for an
/// action step inside a container of the list.
pub proof fn law_handler_keys_include_action_bindings(hs: Seq<Handler>, i: int, j: int, k: Seq<char>)
    requires
        0 <= i < hs.len(),
    ensures
        hs[i] matches Handler::Item(Step::Act(a)) && action_reads(a, k) ==> handlers_scan(
            hs,
            hs.len() as int,
        ).0.contains(k),
        hs[i] matches Handler::Container { steps, .. } && 0 <= j < steps@.len() && (steps@[j] matches Step::Act(
            a,
        ) && action_reads(a, k)) ==> handlers_scan(hs, hs.len() as int).0.contains(k),
{
    if let Handler::Item(Step::Act(a)) = hs[i] {
        if action_reads(a, k) {
            law_action_keys_are_its_bindings(a, k);
            lemma_handlers_scan_contain(hs, hs.len() as int, i, k);
        }
    }
    if let Handler::Container { selector, steps, dedup } = hs[i] {
        if 0 <= j < steps@.len() && (steps@[j] matches Step::Act(a) && action_reads(a, k)) {
            lemma_steps_keys_contain(steps@, steps@.len() as int, j, k);
            lemma_contains_right(bound_key(selector), steps_keys(steps@, steps@.len() as int), k);
            lemma_handlers_scan_contain(hs, hs.len() as int, i, k);
        }
    }
}

} // verus!
