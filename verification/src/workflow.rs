//! The workflow model: actions, extractions, handlers and sequences, and the
//! resolution of bound values against an execution context.
use vstd::prelude::*;
use crate::map::StrMap;
use crate::text::{parse_u64, parse_i64, parse_u64_spec, parse_i64_spec};

verus! {

/// A key that `PressKey` sends.
#[derive(Debug, Clone, Copy, PartialEq, Eq, Structural)]
pub enum KeyAction {
    Enter,
    Tab,
    Escape,
    Space,
    Backspace,
    ArrowUp,
    ArrowDown,
    ArrowLeft,
    ArrowRight,
}

/// A parameter with a literal value and, optionally, the name of a binding
/// that supplies the value at run time.
#[derive(Debug, PartialEq)]
pub struct BindValue<T> {
    pub value: T,
    pub binding: Option<String>,
}

impl<T> BindValue<T> {
    /// A literal value without a binding.
    pub fn new(value: T) -> (r: Self)
        ensures
            r.value == value,
            r.binding is None,
    {
        BindValue { value, binding: None }
    }

    /// A value that the binding `key` overrides when it is set.
    pub fn with_binding(value: T, key: &str) -> (r: Self)
        ensures
            r.value == value,
            r.binding matches Some(k) && k@ == key@,
    {
        BindValue { value, binding: Some(key.to_string()) }
    }
}

pub fn clone_opt_string(o: &Option<String>) -> (r: Option<String>)
    ensures
        r == *o,
{
    match o {
        Some(s) => Some(s.clone()),
        None => None,
    }
}

impl Clone for BindValue<String> {
    fn clone(&self) -> (r: Self)
        ensures
            r == *self,
    {
        BindValue { value: self.value.clone(), binding: clone_opt_string(&self.binding) }
    }
}

impl Clone for BindValue<u64> {
    fn clone(&self) -> (r: Self)
        ensures
            r == *self,
    {
        BindValue { value: self.value, binding: clone_opt_string(&self.binding) }
    }
}

impl Clone for BindValue<i64> {
    fn clone(&self) -> (r: Self)
        ensures
            r == *self,
    {
        BindValue { value: self.value, binding: clone_opt_string(&self.binding) }
    }
}

/// Bindings that parameters read, and the data that extractions collected.
#[derive(Debug)]
pub struct ExecContext {
    pub bindings: StrMap<String>,
    pub data: StrMap<String>,
}

impl ExecContext {
    /// A context with no bindings and no data.
    pub fn new() -> (c: Self)
        ensures
            c.bindings@ == Map::<Seq<char>, String>::empty(),
            c.data@ == Map::<Seq<char>, String>::empty(),
    {
        ExecContext { bindings: StrMap::new(), data: StrMap::new() }
    }
}

impl Default for ExecContext {
    fn default() -> (c: Self)
        ensures
            c.bindings@ == Map::<Seq<char>, String>::empty(),
            c.data@ == Map::<Seq<char>, String>::empty(),
    {
        ExecContext::new()
    }
}

/// The text a string parameter stands for: the bound value when the
/// parameter names a binding that the context holds, else its literal.
pub open spec fn resolve_text(bv: BindValue<String>, env: Option<Map<Seq<char>, Seq<char>>>) -> Seq<char> {
    match (bv.binding, env) {
        (Some(k), Some(m)) => if m.contains_key(k@) {
            m[k@]
        } else {
            bv.value@
        },
        _ => bv.value@,
    }
}

/// The number a `u64` parameter stands for: the bound text when it names a
/// binding that the context holds and that text parses, else its literal.
pub open spec fn resolve_u64(bv: BindValue<u64>, env: Option<Map<Seq<char>, Seq<char>>>) -> u64 {
    match (bv.binding, env) {
        (Some(k), Some(m)) => if m.contains_key(k@) && parse_u64_spec(m[k@]) is Some {
            parse_u64_spec(m[k@])->0
        } else {
            bv.value
        },
        _ => bv.value,
    }
}

/// The number an `i64` parameter stands for, as for `resolve_u64`.
pub open spec fn resolve_i64(bv: BindValue<i64>, env: Option<Map<Seq<char>, Seq<char>>>) -> i64 {
    match (bv.binding, env) {
        (Some(k), Some(m)) => if m.contains_key(k@) && parse_i64_spec(m[k@]) is Some {
            parse_i64_spec(m[k@])->0
        } else {
            bv.value
        },
        _ => bv.value,
    }
}

/// The bindings of an optional context.
pub open spec fn env_of(ctx: Option<&ExecContext>) -> Option<Map<Seq<char>, Seq<char>>> {
    match ctx {
        Some(c) => Some(c.bindings.texts()),
        None => None,
    }
}

impl BindValue<String> {
    /// The text this parameter stands for in `ctx`.
    pub fn resolve<'a>(&'a self, ctx: Option<&'a ExecContext>) -> (r: &'a str)
        ensures
            r@ == resolve_text(*self, env_of(ctx)),
    {
        match (&self.binding, ctx) {
            (Some(key), Some(c)) => match c.bindings.get(key.as_str()) {
                Some(s) => s.as_str(),
                None => self.value.as_str(),
            },
            _ => self.value.as_str(),
        }
    }
}

impl BindValue<u64> {
    /// The number this parameter stands for in `ctx`.
    pub fn resolve(&self, ctx: Option<&ExecContext>) -> (r: u64)
        ensures
            r == resolve_u64(*self, env_of(ctx)),
    {
        match (&self.binding, ctx) {
            (Some(key), Some(c)) => match c.bindings.get(key.as_str()) {
                Some(s) => match parse_u64(s.as_str()) {
                    Some(n) => n,
                    None => self.value,
                },
                None => self.value,
            },
            _ => self.value,
        }
    }
}

impl BindValue<i64> {
    /// The number this parameter stands for in `ctx`.
    pub fn resolve(&self, ctx: Option<&ExecContext>) -> (r: i64)
        ensures
            r == resolve_i64(*self, env_of(ctx)),
    {
        match (&self.binding, ctx) {
            (Some(key), Some(c)) => match c.bindings.get(key.as_str()) {
                Some(s) => match parse_i64(s.as_str()) {
                    Some(n) => n,
                    None => self.value,
                },
                None => self.value,
            },
            _ => self.value,
        }
    }
}

/// A browser action.
#[derive(Debug, PartialEq)]
pub enum Action {
    Click { selector_string: BindValue<String> },
    Navigate { url: BindValue<String> },
    NavigateHref { base: BindValue<String>, href: BindValue<String> },
    Wait { time_ms: BindValue<u64> },
    WaitFor { selector_string: BindValue<String>, time_ms: BindValue<u64> },
    ScrollAll,
    ScrollDown { scroll: BindValue<i64> },
    ScrollUp { scroll: BindValue<i64> },
    ClickByText { selector_string: BindValue<String>, text: BindValue<String> },
    GetHTML { selector_string: BindValue<String>, time_ms: BindValue<u64> },
    DismissPermission,
    SwitchToDefaultContent,
    SwitchToFrame { selector_string: BindValue<String> },
    Refresh,
    Forward,
    Backward,
    NewTab { url: BindValue<String> },
    SwitchTab { index: BindValue<u64> },
    CloseTab,
    SwitchToLastTab,
    Type { selector: BindValue<String>, text: BindValue<String> },
    PressKey { key: KeyAction },
    ClearAndType { selector: BindValue<String>, text: BindValue<String> },
}

impl Clone for Action {
    fn clone(&self) -> (r: Self)
        ensures
            r == *self,
    {
        match self {
            Action::Click { selector_string } => Action::Click { selector_string: selector_string.clone() },
            Action::Navigate { url } => Action::Navigate { url: url.clone() },
            Action::NavigateHref { base, href } => Action::NavigateHref { base: base.clone(), href: href.clone() },
            Action::Wait { time_ms } => Action::Wait { time_ms: time_ms.clone() },
            Action::WaitFor { selector_string, time_ms } => Action::WaitFor {
                selector_string: selector_string.clone(),
                time_ms: time_ms.clone(),
            },
            Action::ScrollAll => Action::ScrollAll,
            Action::ScrollDown { scroll } => Action::ScrollDown { scroll: scroll.clone() },
            Action::ScrollUp { scroll } => Action::ScrollUp { scroll: scroll.clone() },
            Action::ClickByText { selector_string, text } => Action::ClickByText {
                selector_string: selector_string.clone(),
                text: text.clone(),
            },
            Action::GetHTML { selector_string, time_ms } => Action::GetHTML {
                selector_string: selector_string.clone(),
                time_ms: time_ms.clone(),
            },
            Action::DismissPermission => Action::DismissPermission,
            Action::SwitchToDefaultContent => Action::SwitchToDefaultContent,
            Action::SwitchToFrame { selector_string } => Action::SwitchToFrame {
                selector_string: selector_string.clone(),
            },
            Action::Refresh => Action::Refresh,
            Action::Forward => Action::Forward,
            Action::Backward => Action::Backward,
            Action::NewTab { url } => Action::NewTab { url: url.clone() },
            Action::SwitchTab { index } => Action::SwitchTab { index: index.clone() },
            Action::CloseTab => Action::CloseTab,
            Action::SwitchToLastTab => Action::SwitchToLastTab,
            Action::Type { selector, text } => Action::Type { selector: selector.clone(), text: text.clone() },
            Action::PressKey { key } => Action::PressKey { key: *key },
            Action::ClearAndType { selector, text } => Action::ClearAndType {
                selector: selector.clone(),
                text: text.clone(),
            },
        }
    }
}

/// A data extraction from the current page or from a container element.
#[derive(Debug, PartialEq)]
pub enum Extraction {
    Text { selector_string: BindValue<String>, field_name: BindValue<String> },
    Count { selector_string: BindValue<String>, field_name: BindValue<String> },
    Attribute {
        selector_string: BindValue<String>,
        field_name: BindValue<String>,
        attr_str: BindValue<String>,
    },
    Exists { selector_string: BindValue<String>, field_name: BindValue<String> },
    MultipleText { selector_string: BindValue<String>, field_name: BindValue<String> },
}

impl Extraction {
    /// The selector parameter of any extraction.
    pub open spec fn selector_param(self) -> BindValue<String> {
        match self {
            Extraction::Text { selector_string, .. } => selector_string,
            Extraction::Count { selector_string, .. } => selector_string,
            Extraction::Attribute { selector_string, .. } => selector_string,
            Extraction::Exists { selector_string, .. } => selector_string,
            Extraction::MultipleText { selector_string, .. } => selector_string,
        }
    }

    /// The field-name parameter of any extraction.
    pub open spec fn field_param(self) -> BindValue<String> {
        match self {
            Extraction::Text { field_name, .. } => field_name,
            Extraction::Count { field_name, .. } => field_name,
            Extraction::Attribute { field_name, .. } => field_name,
            Extraction::Exists { field_name, .. } => field_name,
            Extraction::MultipleText { field_name, .. } => field_name,
        }
    }

    /// The selector parameter.
    pub fn selector(&self) -> (r: &BindValue<String>)
        ensures
            *r == self.selector_param(),
    {
        match self {
            Extraction::Text { selector_string, .. } => selector_string,
            Extraction::Count { selector_string, .. } => selector_string,
            Extraction::Attribute { selector_string, .. } => selector_string,
            Extraction::Exists { selector_string, .. } => selector_string,
            Extraction::MultipleText { selector_string, .. } => selector_string,
        }
    }

    /// The field-name parameter.
    pub fn field(&self) -> (r: &BindValue<String>)
        ensures
            *r == self.field_param(),
    {
        match self {
            Extraction::Text { field_name, .. } => field_name,
            Extraction::Count { field_name, .. } => field_name,
            Extraction::Attribute { field_name, .. } => field_name,
            Extraction::Exists { field_name, .. } => field_name,
            Extraction::MultipleText { field_name, .. } => field_name,
        }
    }
}

impl Clone for Extraction {
    fn clone(&self) -> (r: Self)
        ensures
            r == *self,
    {
        match self {
            Extraction::Text { selector_string, field_name } => Extraction::Text {
                selector_string: selector_string.clone(),
                field_name: field_name.clone(),
            },
            Extraction::Count { selector_string, field_name } => Extraction::Count {
                selector_string: selector_string.clone(),
                field_name: field_name.clone(),
            },
            Extraction::Attribute { selector_string, field_name, attr_str } => Extraction::Attribute {
                selector_string: selector_string.clone(),
                field_name: field_name.clone(),
                attr_str: attr_str.clone(),
            },
            Extraction::Exists { selector_string, field_name } => Extraction::Exists {
                selector_string: selector_string.clone(),
                field_name: field_name.clone(),
            },
            Extraction::MultipleText { selector_string, field_name } => Extraction::MultipleText {
                selector_string: selector_string.clone(),
                field_name: field_name.clone(),
            },
        }
    }
}

/// One step: an action or an extraction.
#[derive(Debug)]
pub enum Step {
    Act(Action),
    Extract(Extraction),
}

impl Clone for Step {
    fn clone(&self) -> (r: Self)
        ensures
            r == *self,
    {
        match self {
            Step::Act(a) => Step::Act(a.clone()),
            Step::Extract(e) => Step::Extract(e.clone()),
        }
    }
}

/// A handler of a sequence.
#[derive(Debug)]
pub enum Handler {
    Item(Step),
    Container { selector: BindValue<String>, steps: Vec<Step>, dedup: bool },
    SubSequence(Sequence),
}

/// A named list of handlers, with fixed data that container rows start
/// from, and free-form metadata lines.
#[derive(Debug)]
pub struct Sequence {
    pub sequence_name: String,
    pub step_sequence: Vec<Handler>,
    pub target_data: StrMap<String>,
    pub metadata: Vec<String>,
}

pub fn clone_strings(v: &Vec<String>) -> (r: Vec<String>)
    ensures
        r@ == v@,
{
    let mut r: Vec<String> = Vec::new();
    let mut i: usize = 0;
    while i < v.len()
        invariant
            i <= v@.len(),
            r@ == v@.subrange(0, i as int),
        decreases v@.len() - i,
    {
        r.push(v[i].clone());
        assert(r@ =~= v@.subrange(0, i + 1));
        i = i + 1;
    }
    assert(r@ =~= v@);
    r
}

pub fn clone_steps(v: &Vec<Step>) -> (r: Vec<Step>)
    ensures
        r@ == v@,
{
    let mut r: Vec<Step> = Vec::new();
    let mut i: usize = 0;
    while i < v.len()
        invariant
            i <= v@.len(),
            r@ == v@.subrange(0, i as int),
        decreases v@.len() - i,
    {
        r.push(v[i].clone());
        assert(r@ =~= v@.subrange(0, i + 1));
        i = i + 1;
    }
    assert(r@ =~= v@);
    r
}

/// Two handlers with the same content.
pub open spec fn same_handler(a: Handler, b: Handler) -> bool
    decreases a,
{
    match (a, b) {
        (Handler::Item(x), Handler::Item(y)) => x == y,
        (
            Handler::Container { selector: s1, steps: t1, dedup: d1 },
            Handler::Container { selector: s2, steps: t2, dedup: d2 },
        ) => s1 == s2 && t1@ == t2@ && d1 == d2,
        (Handler::SubSequence(x), Handler::SubSequence(y)) => same_sequence(x, y),
        _ => false,
    }
}

/// Two sequences with the same content.
pub open spec fn same_sequence(a: Sequence, b: Sequence) -> bool
    decreases a,
{
    &&& a.sequence_name == b.sequence_name
    &&& a.target_data.entries() == b.target_data.entries()
    &&& a.metadata@ == b.metadata@
    &&& a.step_sequence@.len() == b.step_sequence@.len()
    &&& forall|i: int|
        0 <= i < a.step_sequence@.len() ==> same_handler(
            #[trigger] a.step_sequence@[i],
            b.step_sequence@[i],
        )
}

/// Having the same content carries over: a copy of a copy has the content
/// of the handler first copied.
pub proof fn lemma_same_handler_trans(a: Handler, b: Handler, c: Handler)
    requires
        same_handler(a, b),
        same_handler(b, c),
    ensures
        same_handler(a, c),
    decreases a,
{
    match (a, b, c) {
        (Handler::SubSequence(x), Handler::SubSequence(y), Handler::SubSequence(z)) => {
            assert forall|i: int| 0 <= i < x.step_sequence@.len() implies same_handler(
                #[trigger] x.step_sequence@[i],
                z.step_sequence@[i],
            ) by {
                lemma_same_handler_trans(x.step_sequence@[i], y.step_sequence@[i], z.step_sequence@[i]);
            }
        },
        _ => {},
    }
}

/// A copy of a handler.
pub fn clone_handler(h: &Handler) -> (r: Handler)
    ensures
        same_handler(r, *h),
    decreases h, 0nat,
{
    match h {
        Handler::Item(s) => Handler::Item(Step::clone(s)),
        Handler::Container { selector, steps, dedup } => Handler::Container {
            selector: selector.clone(),
            steps: clone_steps(steps),
            dedup: *dedup,
        },
        Handler::SubSequence(seq) => Handler::SubSequence(clone_sequence(seq)),
    }
}

/// A copy of a sequence.
pub fn clone_sequence(s: &Sequence) -> (r: Sequence)
    ensures
        same_sequence(r, *s),
    decreases s, 2nat,
{
    Sequence {
        sequence_name: s.sequence_name.clone(),
        step_sequence: clone_handlers(&s.step_sequence),
        target_data: s.target_data.clone_map(),
        metadata: clone_strings(&s.metadata),
    }
}

/// A copy of a list of handlers.
pub fn clone_handlers(v: &Vec<Handler>) -> (r: Vec<Handler>)
    ensures
        r@.len() == v@.len(),
        forall|i: int| 0 <= i < v@.len() ==> same_handler(#[trigger] r@[i], v@[i]),
    decreases v, 1nat,
{
    let mut r: Vec<Handler> = Vec::new();
    let mut i: usize = 0;
    while i < v.len()
        invariant
            i <= v@.len(),
            r@.len() == i,
            forall|j: int| 0 <= j < i ==> same_handler(#[trigger] r@[j], v@[j]),
        decreases v@.len() - i,
    {
        assert(decreases_to!(v => v@[i as int]));
        r.push(clone_handler(&v[i]));
        i = i + 1;
    }
    r
}

impl Clone for Handler {
    fn clone(&self) -> (r: Self)
        ensures
            same_handler(r, *self),
    {
        clone_handler(self)
    }
}

impl Clone for Sequence {
    fn clone(&self) -> (r: Self)
        ensures
            same_sequence(r, *self),
    {
        clone_sequence(self)
    }
}

} // verus!
