//! Editing one handler: the form state, the kinds and their fresh values,
//! the parameters a field names, and the input mappings of a sub-sequence.
use vstd::prelude::*;
use crate::keys::{extract_binding_keys_from_sequence, handlers_scan, strictly_sorted, strs};
use crate::text::{chars_of, has_prefix, parse_i64, parse_i64_spec, parse_u64, parse_u64_spec, starts_with, str_eq, string_of_range};
use crate::map::StrMap;
use crate::workflow::{Action, BindValue, Extraction, Handler, KeyAction, Sequence, Step};

verus! {

/// An output field of a container, offered as a mapping source.
#[derive(Debug, PartialEq, Eq)]
pub struct ContainerField {
    pub field_name: String,
    pub extraction_type: String,
}

/// How a sub-sequence receives a container output: the binding key it
/// reads, and the container field that supplies it.
#[derive(Debug)]
pub struct InputMapping {
    pub binding_key: String,
    pub source_field: Option<String>,
}

impl InputMapping {
    /// A mapping with no key and no source.
    pub fn empty() -> (m: Self)
        ensures
            m.binding_key@.len() == 0,
            m.source_field is None,
    {
        InputMapping { binding_key: String::new(), source_field: None }
    }
}

/// A parameter field of a form.
#[derive(Debug, Clone, Copy, PartialEq, Eq, Structural)]
pub enum FieldId {
    Selector,
    Url,
    Text,
    FieldName,
    AttrStr,
    TimeMs,
    Index,
    Base,
    Href,
    Scroll,
}

/// A text parameter with an empty literal and no binding.
pub open spec fn empty_param(b: BindValue<String>) -> bool {
    b.value@.len() == 0 && b.binding is None
}

/// A parameter with literal `v` and no binding.
pub open spec fn literal_param<T>(b: BindValue<T>, v: T) -> bool {
    b.value == v && b.binding is None
}

/// The name of an action's kind.
pub open spec fn action_name(a: Action) -> Seq<char> {
    match a {
        Action::Click { .. } => "Click"@,
        Action::Navigate { .. } => "Navigate"@,
        Action::WaitFor { .. } => "WaitFor"@,
        Action::Wait { .. } => "Wait"@,
        Action::ScrollAll => "ScrollAll"@,
        Action::ClickByText { .. } => "ClickByText"@,
        Action::GetHTML { .. } => "GetHTML"@,
        Action::DismissPermission => "DismissPermission"@,
        Action::SwitchToDefaultContent => "SwitchToDefaultContent"@,
        Action::SwitchToFrame { .. } => "SwitchToFrame"@,
        Action::Refresh => "Refresh"@,
        Action::Forward => "Forward"@,
        Action::Backward => "Backward"@,
        Action::NewTab { .. } => "NewTab"@,
        Action::SwitchTab { .. } => "SwitchTab"@,
        Action::CloseTab => "CloseTab"@,
        Action::SwitchToLastTab => "SwitchToLastTab"@,
        Action::Type { .. } => "Type"@,
        Action::PressKey { .. } => "PressKey"@,
        Action::ClearAndType { .. } => "ClearAndType"@,
        Action::NavigateHref { .. } => "NavigateHref"@,
        Action::ScrollDown { .. } => "ScrollDown"@,
        Action::ScrollUp { .. } => "ScrollUp"@,
    }
}

/// The name of an action's kind.
pub fn action_variant_name(a: &Action) -> (r: &'static str)
    ensures
        r@ == action_name(*a),
{
    match a {
        Action::Click { .. } => "Click",
        Action::Navigate { .. } => "Navigate",
        Action::WaitFor { .. } => "WaitFor",
        Action::Wait { .. } => "Wait",
        Action::ScrollAll => "ScrollAll",
        Action::ClickByText { .. } => "ClickByText",
        Action::GetHTML { .. } => "GetHTML",
        Action::DismissPermission => "DismissPermission",
        Action::SwitchToDefaultContent => "SwitchToDefaultContent",
        Action::SwitchToFrame { .. } => "SwitchToFrame",
        Action::Refresh => "Refresh",
        Action::Forward => "Forward",
        Action::Backward => "Backward",
        Action::NewTab { .. } => "NewTab",
        Action::SwitchTab { .. } => "SwitchTab",
        Action::CloseTab => "CloseTab",
        Action::SwitchToLastTab => "SwitchToLastTab",
        Action::Type { .. } => "Type",
        Action::PressKey { .. } => "PressKey",
        Action::ClearAndType { .. } => "ClearAndType",
        Action::NavigateHref { .. } => "NavigateHref",
        Action::ScrollDown { .. } => "ScrollDown",
        Action::ScrollUp { .. } => "ScrollUp",
    }
}

/// The name of an extraction's kind.
pub open spec fn extraction_name(e: Extraction) -> Seq<char> {
    match e {
        Extraction::Text { .. } => "Text"@,
        Extraction::Count { .. } => "Count"@,
        Extraction::Attribute { .. } => "Attribute"@,
        Extraction::Exists { .. } => "Exists"@,
        Extraction::MultipleText { .. } => "MultipleText"@,
    }
}

/// The name of an extraction's kind.
pub fn extraction_variant_name(e: &Extraction) -> (r: &'static str)
    ensures
        r@ == extraction_name(*e),
{
    match e {
        Extraction::Text { .. } => "Text",
        Extraction::Count { .. } => "Count",
        Extraction::Attribute { .. } => "Attribute",
        Extraction::Exists { .. } => "Exists",
        Extraction::MultipleText { .. } => "MultipleText",
    }
}

/// The name of a key.
pub open spec fn key_name(k: KeyAction) -> Seq<char> {
    match k {
        KeyAction::Enter => "Enter"@,
        KeyAction::Tab => "Tab"@,
        KeyAction::Escape => "Escape"@,
        KeyAction::Space => "Space"@,
        KeyAction::Backspace => "Backspace"@,
        KeyAction::ArrowUp => "ArrowUp"@,
        KeyAction::ArrowDown => "ArrowDown"@,
        KeyAction::ArrowLeft => "ArrowLeft"@,
        KeyAction::ArrowRight => "ArrowRight"@,
    }
}

/// The name of a key.
pub fn key_action_name(k: &KeyAction) -> (r: &'static str)
    ensures
        r@ == key_name(*k),
{
    match k {
        KeyAction::Enter => "Enter",
        KeyAction::Tab => "Tab",
        KeyAction::Escape => "Escape",
        KeyAction::Space => "Space",
        KeyAction::Backspace => "Backspace",
        KeyAction::ArrowUp => "ArrowUp",
        KeyAction::ArrowDown => "ArrowDown",
        KeyAction::ArrowLeft => "ArrowLeft",
        KeyAction::ArrowRight => "ArrowRight",
    }
}

/// The key a name stands for; `Enter` for an unknown name.
pub open spec fn key_of_name(s: Seq<char>) -> KeyAction {
    if s == "Enter"@ {
        KeyAction::Enter
    } else if s == "Tab"@ {
        KeyAction::Tab
    } else if s == "Escape"@ {
        KeyAction::Escape
    } else if s == "Space"@ {
        KeyAction::Space
    } else if s == "Backspace"@ {
        KeyAction::Backspace
    } else if s == "ArrowUp"@ {
        KeyAction::ArrowUp
    } else if s == "ArrowDown"@ {
        KeyAction::ArrowDown
    } else if s == "ArrowLeft"@ {
        KeyAction::ArrowLeft
    } else if s == "ArrowRight"@ {
        KeyAction::ArrowRight
    } else {
        KeyAction::Enter
    }
}

/// The key a name stands for; `Enter` for an unknown name.
pub fn parse_key_action(s: &str) -> (k: KeyAction)
    ensures
        k == key_of_name(s@),
{
    if str_eq(s, "Enter") {
        KeyAction::Enter
    } else if str_eq(s, "Tab") {
        KeyAction::Tab
    } else if str_eq(s, "Escape") {
        KeyAction::Escape
    } else if str_eq(s, "Space") {
        KeyAction::Space
    } else if str_eq(s, "Backspace") {
        KeyAction::Backspace
    } else if str_eq(s, "ArrowUp") {
        KeyAction::ArrowUp
    } else if str_eq(s, "ArrowDown") {
        KeyAction::ArrowDown
    } else if str_eq(s, "ArrowLeft") {
        KeyAction::ArrowLeft
    } else if str_eq(s, "ArrowRight") {
        KeyAction::ArrowRight
    } else {
        KeyAction::Enter
    }
}

/// The action of kind `v` with empty texts and the preset numbers; a
/// click for an unknown kind.
pub open spec fn is_default_action(a: Action, v: Seq<char>) -> bool {
    if v == "Click"@ {
        a matches Action::Click { selector_string } && empty_param(selector_string)
    } else if v == "Navigate"@ {
        a matches Action::Navigate { url } && empty_param(url)
    } else if v == "WaitFor"@ {
        a matches Action::WaitFor { selector_string, time_ms } && empty_param(selector_string) && literal_param(time_ms, 500)
    } else if v == "Wait"@ {
        a matches Action::Wait { time_ms } && literal_param(time_ms, 1000)
    } else if v == "ScrollAll"@ {
        a is ScrollAll
    } else if v == "ClickByText"@ {
        a matches Action::ClickByText { selector_string, text } && empty_param(selector_string) && empty_param(text)
    } else if v == "GetHTML"@ {
        a matches Action::GetHTML { selector_string, time_ms } && empty_param(selector_string) && literal_param(time_ms, 500)
    } else if v == "DismissPermission"@ {
        a is DismissPermission
    } else if v == "SwitchToDefaultContent"@ {
        a is SwitchToDefaultContent
    } else if v == "SwitchToFrame"@ {
        a matches Action::SwitchToFrame { selector_string } && empty_param(selector_string)
    } else if v == "Refresh"@ {
        a is Refresh
    } else if v == "Forward"@ {
        a is Forward
    } else if v == "Backward"@ {
        a is Backward
    } else if v == "NewTab"@ {
        a matches Action::NewTab { url } && empty_param(url)
    } else if v == "SwitchTab"@ {
        a matches Action::SwitchTab { index } && literal_param(index, 0)
    } else if v == "CloseTab"@ {
        a is CloseTab
    } else if v == "SwitchToLastTab"@ {
        a is SwitchToLastTab
    } else if v == "Type"@ {
        a matches Action::Type { selector, text } && empty_param(selector) && empty_param(text)
    } else if v == "PressKey"@ {
        a == Action::PressKey { key: KeyAction::Enter }
    } else if v == "ClearAndType"@ {
        a matches Action::ClearAndType { selector, text } && empty_param(selector) && empty_param(text)
    } else if v == "NavigateHref"@ {
        a matches Action::NavigateHref { base, href } && empty_param(base) && empty_param(href)
    } else if v == "ScrollDown"@ {
        a matches Action::ScrollDown { scroll } && literal_param(scroll, 500)
    } else if v == "ScrollUp"@ {
        a matches Action::ScrollUp { scroll } && literal_param(scroll, 500)
    } else {
        a matches Action::Click { selector_string } && empty_param(selector_string)
    }
}

/// The extraction of kind `v` with empty texts; a text extraction for
/// an unknown kind.
pub open spec fn is_default_extraction(e: Extraction, v: Seq<char>) -> bool {
    if v == "Text"@ {
        e matches Extraction::Text { selector_string, field_name } && empty_param(selector_string) && empty_param(field_name)
    } else if v == "Count"@ {
        e matches Extraction::Count { selector_string, field_name } && empty_param(selector_string) && empty_param(field_name)
    } else if v == "Attribute"@ {
        e matches Extraction::Attribute { selector_string, field_name, attr_str } && empty_param(selector_string) && empty_param(field_name) && empty_param(attr_str)
    } else if v == "Exists"@ {
        e matches Extraction::Exists { selector_string, field_name } && empty_param(selector_string) && empty_param(field_name)
    } else if v == "MultipleText"@ {
        e matches Extraction::MultipleText { selector_string, field_name } && empty_param(selector_string) && empty_param(field_name)
    } else {
        e matches Extraction::Text { selector_string, field_name } && empty_param(selector_string) && empty_param(field_name)
    }
}

/// A fresh action of kind `variant`.
pub fn default_action_for_variant(variant: &str) -> (a: Action)
    ensures
        is_default_action(a, variant@),
{
    if str_eq(variant, "Click") {
        Action::Click { selector_string: BindValue::new(String::new()) }
    } else if str_eq(variant, "Navigate") {
        Action::Navigate { url: BindValue::new(String::new()) }
    } else if str_eq(variant, "WaitFor") {
        Action::WaitFor { selector_string: BindValue::new(String::new()), time_ms: BindValue::new(500) }
    } else if str_eq(variant, "Wait") {
        Action::Wait { time_ms: BindValue::new(1000) }
    } else if str_eq(variant, "ScrollAll") {
        Action::ScrollAll
    } else if str_eq(variant, "ClickByText") {
        Action::ClickByText { selector_string: BindValue::new(String::new()), text: BindValue::new(String::new()) }
    } else if str_eq(variant, "GetHTML") {
        Action::GetHTML { selector_string: BindValue::new(String::new()), time_ms: BindValue::new(500) }
    } else if str_eq(variant, "DismissPermission") {
        Action::DismissPermission
    } else if str_eq(variant, "SwitchToDefaultContent") {
        Action::SwitchToDefaultContent
    } else if str_eq(variant, "SwitchToFrame") {
        Action::SwitchToFrame { selector_string: BindValue::new(String::new()) }
    } else if str_eq(variant, "Refresh") {
        Action::Refresh
    } else if str_eq(variant, "Forward") {
        Action::Forward
    } else if str_eq(variant, "Backward") {
        Action::Backward
    } else if str_eq(variant, "NewTab") {
        Action::NewTab { url: BindValue::new(String::new()) }
    } else if str_eq(variant, "SwitchTab") {
        Action::SwitchTab { index: BindValue::new(0) }
    } else if str_eq(variant, "CloseTab") {
        Action::CloseTab
    } else if str_eq(variant, "SwitchToLastTab") {
        Action::SwitchToLastTab
    } else if str_eq(variant, "Type") {
        Action::Type { selector: BindValue::new(String::new()), text: BindValue::new(String::new()) }
    } else if str_eq(variant, "PressKey") {
        Action::PressKey { key: KeyAction::Enter }
    } else if str_eq(variant, "ClearAndType") {
        Action::ClearAndType { selector: BindValue::new(String::new()), text: BindValue::new(String::new()) }
    } else if str_eq(variant, "NavigateHref") {
        Action::NavigateHref { base: BindValue::new(String::new()), href: BindValue::new(String::new()) }
    } else if str_eq(variant, "ScrollDown") {
        Action::ScrollDown { scroll: BindValue::new(500) }
    } else if str_eq(variant, "ScrollUp") {
        Action::ScrollUp { scroll: BindValue::new(500) }
    } else {
        Action::Click { selector_string: BindValue::new(String::new()) }
    }
}

/// A fresh extraction of kind `variant`.
pub fn default_extraction_for_variant(variant: &str) -> (e: Extraction)
    ensures
        is_default_extraction(e, variant@),
{
    if str_eq(variant, "Text") {
        Extraction::Text { selector_string: BindValue::new(String::new()), field_name: BindValue::new(String::new()) }
    } else if str_eq(variant, "Count") {
        Extraction::Count { selector_string: BindValue::new(String::new()), field_name: BindValue::new(String::new()) }
    } else if str_eq(variant, "Attribute") {
        Extraction::Attribute { selector_string: BindValue::new(String::new()), field_name: BindValue::new(String::new()), attr_str: BindValue::new(String::new()) }
    } else if str_eq(variant, "Exists") {
        Extraction::Exists { selector_string: BindValue::new(String::new()), field_name: BindValue::new(String::new()) }
    } else if str_eq(variant, "MultipleText") {
        Extraction::MultipleText { selector_string: BindValue::new(String::new()), field_name: BindValue::new(String::new()) }
    } else {
        Extraction::Text { selector_string: BindValue::new(String::new()), field_name: BindValue::new(String::new()) }
    }
}

// ---------------------------------------------------------------------
// Input mappings in metadata
// ---------------------------------------------------------------------

/// The metadata line of a mapping: `mapping:{key}:{source}`.
pub open spec fn mapping_line(key: Seq<char>, source: Seq<char>) -> Seq<char> {
    "mapping:"@ + key + ":"@ + source
}

/// The key and source a metadata line holds: after `mapping:`, the text
/// up to the first `:` and the text after it; none when the line lacks the
/// prefix or the second `:`.
pub open spec fn mapping_of(line: Seq<char>) -> Option<(Seq<char>, Seq<char>)> {
    if has_prefix(line, "mapping:"@) {
        let rest = line.subrange(8, line.len() as int);
        let c = colon_index(rest, 0);
        if c < rest.len() {
            Some((rest.subrange(0, c), rest.subrange(c + 1, rest.len() as int)))
        } else {
            None
        }
    } else {
        None
    }
}

/// The index of the first `:` at or after `i`, or the length.
pub open spec fn colon_index(s: Seq<char>, i: int) -> int
    decreases s.len() - i,
{
    if i < 0 || i >= s.len() {
        s.len() as int
    } else if s[i] == ':' {
        i
    } else {
        colon_index(s, i + 1)
    }
}

/// The mappings that the lines `meta[..n]` hold, in order.
pub open spec fn mappings_of(meta: Seq<Seq<char>>, n: int) -> Seq<(Seq<char>, Seq<char>)>
    decreases n,
{
    if n <= 0 || n > meta.len() {
        Seq::empty()
    } else {
        mappings_of(meta, n - 1) + match mapping_of(meta[n - 1]) {
            Some(m) => seq![m],
            None => Seq::<(Seq<char>, Seq<char>)>::empty(),
        }
    }
}

/// A mapping as a key and an optional source.
pub open spec fn mapping_view(m: InputMapping) -> (Seq<char>, Option<Seq<char>>) {
    (
        m.binding_key@,
        match m.source_field {
            Some(s) => Some(s@),
            None => None,
        },
    )
}

/// The mappings, each with its source.
pub open spec fn mappings_view(v: Seq<InputMapping>) -> Seq<(Seq<char>, Option<Seq<char>>)> {
    v.map_values(|m: InputMapping| mapping_view(m))
}

/// The key and source of a metadata line, or none.
pub fn mapping_parts(line: &str) -> (r: Option<(String, String)>)
    ensures
        match r {
            Some((k, s)) => mapping_of(line@) == Some((k@, s@)),
            None => mapping_of(line@) is None,
        },
{
    proof {
        reveal_strlit("mapping:");
    }
    if !starts_with(line, "mapping:") {
        return None;
    }
    let v = chars_of(line);
    let ghost rest = line@.subrange(8, line@.len() as int);
    let mut c: usize = 8;
    while c < v.len() && v[c] != ':'
        invariant
            8 <= c <= v@.len(),
            v@ == line@,
            rest == line@.subrange(8, line@.len() as int),
            colon_index(rest, c - 8) == colon_index(rest, 0),
        decreases v@.len() - c,
    {
        assert(rest[c - 8] == v@[c as int]);
        c = c + 1;
    }
    if c >= v.len() {
        assert(colon_index(rest, c - 8) == rest.len());
        return None;
    }
    assert(rest[c - 8] == v@[c as int]);
    assert(colon_index(rest, c - 8) == c - 8);
    let k = string_of_range(&v, 8, c);
    let s = string_of_range(&v, c + 1, v.len());
    assert(k@ =~= rest.subrange(0, c - 8));
    assert(s@ =~= rest.subrange(c - 8 + 1, rest.len() as int));
    Some((k, s))
}

/// The input mappings that the metadata lines hold, in order.
pub fn parse_mappings_from_metadata(metadata: &Vec<String>) -> (r: Vec<InputMapping>)
    ensures
        r@.len() == mappings_of(strs(metadata@), metadata@.len() as int).len(),
        forall|i: int|
            0 <= i < r@.len() ==> mapping_view(#[trigger] r@[i]) == ({
                let m = mappings_of(strs(metadata@), metadata@.len() as int)[i];
                (m.0, Some(m.1))
            }),
{
    let ghost mv = strs(metadata@);
    let mut r: Vec<InputMapping> = Vec::new();
    let mut i: usize = 0;
    while i < metadata.len()
        invariant
            i <= metadata@.len(),
            mv == strs(metadata@),
            r@.len() == mappings_of(mv, i as int).len(),
            forall|j: int|
                0 <= j < r@.len() ==> mapping_view(#[trigger] r@[j]) == ({
                    let m = mappings_of(mv, i as int)[j];
                    (m.0, Some(m.1))
                }),
        decreases metadata@.len() - i,
    {
        let ghost before = mappings_of(mv, i as int);
        assert(mv[i as int] == metadata@[i as int]@);
        match mapping_parts(metadata[i].as_str()) {
            Some((k, s)) => {
                let ghost kv = k@;
                let ghost sv = s@;
                r.push(InputMapping { binding_key: k, source_field: Some(s) });
                assert(mappings_of(mv, i + 1) == before.push((kv, sv)));
            },
            None => {
                assert(mappings_of(mv, i + 1) =~= before);
            },
        }
        i = i + 1;
    }
    r
}

/// The lines among `meta[..n]` that are not mapping lines, in order.
pub open spec fn plain_lines(meta: Seq<Seq<char>>, n: int) -> Seq<Seq<char>>
    decreases n,
{
    if n <= 0 || n > meta.len() {
        Seq::empty()
    } else if has_prefix(meta[n - 1], "mapping:"@) {
        plain_lines(meta, n - 1)
    } else {
        plain_lines(meta, n - 1).push(meta[n - 1])
    }
}

/// The lines of the mappings `ms[..n]` that have a source and a nonempty key.
pub open spec fn lines_of(ms: Seq<(Seq<char>, Option<Seq<char>>)>, n: int) -> Seq<Seq<char>>
    decreases n,
{
    if n <= 0 || n > ms.len() {
        Seq::empty()
    } else {
        lines_of(ms, n - 1) + match ms[n - 1].1 {
            Some(src) => if ms[n - 1].0.len() > 0 {
                seq![mapping_line(ms[n - 1].0, src)]
            } else {
                Seq::<Seq<char>>::empty()
            },
            None => Seq::<Seq<char>>::empty(),
        }
    }
}

/// The metadata with its mapping lines replaced by those of `ms`.
pub fn metadata_with_mappings(meta: &Vec<String>, ms: &Vec<InputMapping>) -> (r: Vec<String>)
    ensures
        strs(r@) == plain_lines(strs(meta@), meta@.len() as int) + lines_of(mappings_view(ms@), ms@.len() as int),
{
    let ghost mv = strs(meta@);
    let mut r: Vec<String> = Vec::new();
    let mut i: usize = 0;
    proof {
        reveal_strlit("mapping:");
    }
    while i < meta.len()
        invariant
            i <= meta@.len(),
            mv == strs(meta@),
            strs(r@) == plain_lines(mv, i as int),
        decreases meta@.len() - i,
    {
        assert(mv[i as int] == meta@[i as int]@);
        let ghost before = strs(r@);
        if !starts_with(meta[i].as_str(), "mapping:") {
            r.push(meta[i].clone());
            assert(strs(r@) =~= before.push(mv[i as int]));
        } else {
            assert(strs(r@) =~= before);
        }
        i = i + 1;
    }
    let ghost base = strs(r@);
    let ghost msv = mappings_view(ms@);
    let mut j: usize = 0;
    assert(strs(r@) =~= base + lines_of(msv, 0));
    while j < ms.len()
        invariant
            j <= ms@.len(),
            msv == mappings_view(ms@),
            strs(r@) == base + lines_of(msv, j as int),
        decreases ms@.len() - j,
    {
        let m = &ms[j];
        let ghost before = strs(r@);
        assert(msv[j as int] == mapping_view(*m));
        match &m.source_field {
            Some(src) => {
                if !m.binding_key.as_str().is_empty() {
                    let mut line = String::from_str("mapping:");
                    line.append(m.binding_key.as_str());
                    line.append(":");
                    line.append(src.as_str());
                    let ghost lv = line@;
                    r.push(line);
                    assert(strs(r@) =~= before.push(lv));
                } else {
                    assert(strs(r@) =~= before);
                }
            },
            None => {
                assert(strs(r@) =~= before);
            },
        }
        assert(strs(r@) =~= base + lines_of(msv, j + 1));
        j = j + 1;
    }
    r
}


// ---------------------------------------------------------------------
// Editing parameters
// ---------------------------------------------------------------------

/// A change to a bound parameter: its literal (for a number, the text to
/// parse), its binding key (empty for none), or whether it is bound.
#[derive(Debug)]
pub enum BindEdit {
    Value(String),
    Key(String),
    Toggle(bool),
}

/// The binding that a key typed into the form gives: none when empty.
pub open spec fn key_binding(k: String) -> Option<String> {
    if k@.len() == 0 {
        None
    } else {
        Some(k)
    }
}

/// Binding turned on keeps a binding (a new one has an empty key);
/// turned off drops it. The literal stays.
pub open spec fn toggled<T>(b: BindValue<T>, nb: BindValue<T>, on: bool) -> bool {
    &&& nb.value == b.value
    &&& if on {
        match b.binding {
            Some(_) => nb.binding == b.binding,
            None => nb.binding matches Some(e) && e@.len() == 0,
        }
    } else {
        nb.binding is None
    }
}

/// The text parameter `b` after edit `e` is `nb`.
pub open spec fn apply_str_edit_ok(b: BindValue<String>, nb: BindValue<String>, e: BindEdit) -> bool {
    match e {
        BindEdit::Value(v) => nb == BindValue { value: v, binding: b.binding },
        BindEdit::Key(k) => nb == BindValue { value: b.value, binding: key_binding(k) },
        BindEdit::Toggle(on) => toggled(b, nb, on),
    }
}

/// The unsigned parameter `b` after edit `e` is `nb`; a literal that does
/// not parse leaves the value as it was.
pub open spec fn apply_u64_edit_ok(b: BindValue<u64>, nb: BindValue<u64>, e: BindEdit) -> bool {
    match e {
        BindEdit::Value(v) => nb == BindValue {
            value: match parse_u64_spec(v@) {
                Some(n) => n,
                None => b.value,
            },
            binding: b.binding,
        },
        BindEdit::Key(k) => nb == BindValue { value: b.value, binding: key_binding(k) },
        BindEdit::Toggle(on) => toggled(b, nb, on),
    }
}

/// The signed parameter `b` after edit `e` is `nb`; a literal that does
/// not parse leaves the value as it was.
pub open spec fn apply_i64_edit_ok(b: BindValue<i64>, nb: BindValue<i64>, e: BindEdit) -> bool {
    match e {
        BindEdit::Value(v) => nb == BindValue {
            value: match parse_i64_spec(v@) {
                Some(n) => n,
                None => b.value,
            },
            binding: b.binding,
        },
        BindEdit::Key(k) => nb == BindValue { value: b.value, binding: key_binding(k) },
        BindEdit::Toggle(on) => toggled(b, nb, on),
    }
}

fn set_binding<T>(b: &mut BindValue<T>, k: String)
    ensures
        final(b).value == old(b).value,
        final(b).binding == key_binding(k),
{
    if k.as_str().is_empty() {
        b.binding = None;
    } else {
        b.binding = Some(k);
    }
}

fn toggle_binding<T>(b: &mut BindValue<T>, on: bool)
    ensures
        toggled(*old(b), *final(b), on),
{
    if on {
        if b.binding.is_none() {
            b.binding = Some(String::new());
        }
    } else {
        b.binding = None;
    }
}

fn apply_str_edit(b: &mut BindValue<String>, e: BindEdit)
    ensures
        apply_str_edit_ok(*old(b), *final(b), e),
{
    match e {
        BindEdit::Value(v) => {
            b.value = v;
        },
        BindEdit::Key(k) => set_binding(b, k),
        BindEdit::Toggle(on) => toggle_binding(b, on),
    }
}

fn apply_u64_edit(b: &mut BindValue<u64>, e: BindEdit)
    ensures
        apply_u64_edit_ok(*old(b), *final(b), e),
{
    match e {
        BindEdit::Value(v) => {
            match parse_u64(v.as_str()) {
                Some(n) => {
                    b.value = n;
                },
                None => {},
            }
        },
        BindEdit::Key(k) => set_binding(b, k),
        BindEdit::Toggle(on) => toggle_binding(b, on),
    }
}

fn apply_i64_edit(b: &mut BindValue<i64>, e: BindEdit)
    ensures
        apply_i64_edit_ok(*old(b), *final(b), e),
{
    match e {
        BindEdit::Value(v) => {
            match parse_i64(v.as_str()) {
                Some(n) => {
                    b.value = n;
                },
                None => {},
            }
        },
        BindEdit::Key(k) => set_binding(b, k),
        BindEdit::Toggle(on) => toggle_binding(b, on),
    }
}


/// The text parameter of an action that field `f` names.
pub open spec fn action_str_param(x: Action, f: FieldId) -> Option<BindValue<String>> {
    match (x, f) {
        (Action::Click { selector_string, .. }, FieldId::Selector) => Some(selector_string),
        (Action::Navigate { url, .. }, FieldId::Url) => Some(url),
        (Action::WaitFor { selector_string, .. }, FieldId::Selector) => Some(selector_string),
        (Action::ClickByText { selector_string, .. }, FieldId::Selector) => Some(selector_string),
        (Action::ClickByText { text, .. }, FieldId::Text) => Some(text),
        (Action::GetHTML { selector_string, .. }, FieldId::Selector) => Some(selector_string),
        (Action::SwitchToFrame { selector_string, .. }, FieldId::Selector) => Some(selector_string),
        (Action::NewTab { url, .. }, FieldId::Url) => Some(url),
        (Action::Type { selector, .. }, FieldId::Selector) => Some(selector),
        (Action::Type { text, .. }, FieldId::Text) => Some(text),
        (Action::ClearAndType { selector, .. }, FieldId::Selector) => Some(selector),
        (Action::ClearAndType { text, .. }, FieldId::Text) => Some(text),
        (Action::NavigateHref { base, .. }, FieldId::Base) => Some(base),
        (Action::NavigateHref { href, .. }, FieldId::Href) => Some(href),
        _ => None,
    }
}

/// The action with the text parameter that `f` names set to `b`.
pub open spec fn action_with_str(x: Action, f: FieldId, b: BindValue<String>) -> Action {
    match (x, f) {
        (Action::Click { .. }, FieldId::Selector) => Action::Click { selector_string: b },
        (Action::Navigate { .. }, FieldId::Url) => Action::Navigate { url: b },
        (Action::WaitFor { time_ms, .. }, FieldId::Selector) => Action::WaitFor { selector_string: b, time_ms },
        (Action::ClickByText { text, .. }, FieldId::Selector) => Action::ClickByText { selector_string: b, text },
        (Action::ClickByText { selector_string, .. }, FieldId::Text) => Action::ClickByText { text: b, selector_string },
        (Action::GetHTML { time_ms, .. }, FieldId::Selector) => Action::GetHTML { selector_string: b, time_ms },
        (Action::SwitchToFrame { .. }, FieldId::Selector) => Action::SwitchToFrame { selector_string: b },
        (Action::NewTab { .. }, FieldId::Url) => Action::NewTab { url: b },
        (Action::Type { text, .. }, FieldId::Selector) => Action::Type { selector: b, text },
        (Action::Type { selector, .. }, FieldId::Text) => Action::Type { text: b, selector },
        (Action::ClearAndType { text, .. }, FieldId::Selector) => Action::ClearAndType { selector: b, text },
        (Action::ClearAndType { selector, .. }, FieldId::Text) => Action::ClearAndType { text: b, selector },
        (Action::NavigateHref { href, .. }, FieldId::Base) => Action::NavigateHref { base: b, href },
        (Action::NavigateHref { base, .. }, FieldId::Href) => Action::NavigateHref { href: b, base },
        _ => x,
    }
}

/// The text parameter of an extraction that field `f` names.
pub open spec fn ext_str_param(x: Extraction, f: FieldId) -> Option<BindValue<String>> {
    match (x, f) {
        (Extraction::Text { selector_string, .. }, FieldId::Selector) => Some(selector_string),
        (Extraction::Text { field_name, .. }, FieldId::FieldName) => Some(field_name),
        (Extraction::Count { selector_string, .. }, FieldId::Selector) => Some(selector_string),
        (Extraction::Count { field_name, .. }, FieldId::FieldName) => Some(field_name),
        (Extraction::Exists { selector_string, .. }, FieldId::Selector) => Some(selector_string),
        (Extraction::Exists { field_name, .. }, FieldId::FieldName) => Some(field_name),
        (Extraction::MultipleText { selector_string, .. }, FieldId::Selector) => Some(selector_string),
        (Extraction::MultipleText { field_name, .. }, FieldId::FieldName) => Some(field_name),
        (Extraction::Attribute { selector_string, .. }, FieldId::Selector) => Some(selector_string),
        (Extraction::Attribute { field_name, .. }, FieldId::FieldName) => Some(field_name),
        (Extraction::Attribute { attr_str, .. }, FieldId::AttrStr) => Some(attr_str),
        _ => None,
    }
}

/// The extraction with the text parameter that `f` names set to `b`.
pub open spec fn ext_with_str(x: Extraction, f: FieldId, b: BindValue<String>) -> Extraction {
    match (x, f) {
        (Extraction::Text { field_name, .. }, FieldId::Selector) => Extraction::Text { selector_string: b, field_name },
        (Extraction::Text { selector_string, .. }, FieldId::FieldName) => Extraction::Text { field_name: b, selector_string },
        (Extraction::Count { field_name, .. }, FieldId::Selector) => Extraction::Count { selector_string: b, field_name },
        (Extraction::Count { selector_string, .. }, FieldId::FieldName) => Extraction::Count { field_name: b, selector_string },
        (Extraction::Exists { field_name, .. }, FieldId::Selector) => Extraction::Exists { selector_string: b, field_name },
        (Extraction::Exists { selector_string, .. }, FieldId::FieldName) => Extraction::Exists { field_name: b, selector_string },
        (Extraction::MultipleText { field_name, .. }, FieldId::Selector) => Extraction::MultipleText { selector_string: b, field_name },
        (Extraction::MultipleText { selector_string, .. }, FieldId::FieldName) => Extraction::MultipleText { field_name: b, selector_string },
        (Extraction::Attribute { field_name, attr_str, .. }, FieldId::Selector) => Extraction::Attribute { selector_string: b, field_name, attr_str },
        (Extraction::Attribute { selector_string, attr_str, .. }, FieldId::FieldName) => Extraction::Attribute { field_name: b, selector_string, attr_str },
        (Extraction::Attribute { selector_string, field_name, .. }, FieldId::AttrStr) => Extraction::Attribute { attr_str: b, selector_string, field_name },
        _ => x,
    }
}

/// The unsigned parameter of an action that field `f` names.
pub open spec fn action_u64_param(x: Action, f: FieldId) -> Option<BindValue<u64>> {
    match (x, f) {
        (Action::WaitFor { time_ms, .. }, FieldId::TimeMs) => Some(time_ms),
        (Action::GetHTML { time_ms, .. }, FieldId::TimeMs) => Some(time_ms),
        (Action::SwitchTab { index, .. }, FieldId::Index) => Some(index),
        (Action::Wait { time_ms, .. }, FieldId::TimeMs) => Some(time_ms),
        _ => None,
    }
}

/// The action with the unsigned parameter that `f` names set to `b`.
pub open spec fn action_with_u64(x: Action, f: FieldId, b: BindValue<u64>) -> Action {
    match (x, f) {
        (Action::WaitFor { selector_string, .. }, FieldId::TimeMs) => Action::WaitFor { time_ms: b, selector_string },
        (Action::GetHTML { selector_string, .. }, FieldId::TimeMs) => Action::GetHTML { time_ms: b, selector_string },
        (Action::SwitchTab { .. }, FieldId::Index) => Action::SwitchTab { index: b },
        (Action::Wait { .. }, FieldId::TimeMs) => Action::Wait { time_ms: b },
        _ => x,
    }
}

/// The signed parameter of an action that field `f` names.
pub open spec fn action_i64_param(x: Action, f: FieldId) -> Option<BindValue<i64>> {
    match (x, f) {
        (Action::ScrollDown { scroll, .. }, FieldId::Scroll) => Some(scroll),
        (Action::ScrollUp { scroll, .. }, FieldId::Scroll) => Some(scroll),
        _ => None,
    }
}

/// The action with the signed parameter that `f` names set to `b`.
pub open spec fn action_with_i64(x: Action, f: FieldId, b: BindValue<i64>) -> Action {
    match (x, f) {
        (Action::ScrollDown { .. }, FieldId::Scroll) => Action::ScrollDown { scroll: b },
        (Action::ScrollUp { .. }, FieldId::Scroll) => Action::ScrollUp { scroll: b },
        _ => x,
    }
}

fn edit_action_str(x: &mut Action, f: FieldId, e: BindEdit)
    ensures
        match action_str_param(*old(x), f) {
            Some(b) => action_str_param(*final(x), f) matches Some(nb) && *final(x) == action_with_str(*old(x), f, nb)
                && apply_str_edit_ok(b, nb, e),
            None => *final(x) == *old(x),
        },
{
    match x {
        Action::Click { selector_string, .. } => {
            if f == FieldId::Selector {
                apply_str_edit(selector_string, e);
            }
        },
        Action::Navigate { url, .. } => {
            if f == FieldId::Url {
                apply_str_edit(url, e);
            }
        },
        Action::WaitFor { selector_string, .. } => {
            if f == FieldId::Selector {
                apply_str_edit(selector_string, e);
            }
        },
        Action::ClickByText { selector_string, text, .. } => {
            if f == FieldId::Selector {
                apply_str_edit(selector_string, e);
            } else if f == FieldId::Text {
                apply_str_edit(text, e);
            }
        },
        Action::GetHTML { selector_string, .. } => {
            if f == FieldId::Selector {
                apply_str_edit(selector_string, e);
            }
        },
        Action::SwitchToFrame { selector_string, .. } => {
            if f == FieldId::Selector {
                apply_str_edit(selector_string, e);
            }
        },
        Action::NewTab { url, .. } => {
            if f == FieldId::Url {
                apply_str_edit(url, e);
            }
        },
        Action::Type { selector, text, .. } => {
            if f == FieldId::Selector {
                apply_str_edit(selector, e);
            } else if f == FieldId::Text {
                apply_str_edit(text, e);
            }
        },
        Action::ClearAndType { selector, text, .. } => {
            if f == FieldId::Selector {
                apply_str_edit(selector, e);
            } else if f == FieldId::Text {
                apply_str_edit(text, e);
            }
        },
        Action::NavigateHref { base, href, .. } => {
            if f == FieldId::Base {
                apply_str_edit(base, e);
            } else if f == FieldId::Href {
                apply_str_edit(href, e);
            }
        },
        _ => {},
    }
}

fn edit_ext_str(x: &mut Extraction, f: FieldId, e: BindEdit)
    ensures
        match ext_str_param(*old(x), f) {
            Some(b) => ext_str_param(*final(x), f) matches Some(nb) && *final(x) == ext_with_str(*old(x), f, nb)
                && apply_str_edit_ok(b, nb, e),
            None => *final(x) == *old(x),
        },
{
    match x {
        Extraction::Text { selector_string, field_name, .. } => {
            if f == FieldId::Selector {
                apply_str_edit(selector_string, e);
            } else if f == FieldId::FieldName {
                apply_str_edit(field_name, e);
            }
        },
        Extraction::Count { selector_string, field_name, .. } => {
            if f == FieldId::Selector {
                apply_str_edit(selector_string, e);
            } else if f == FieldId::FieldName {
                apply_str_edit(field_name, e);
            }
        },
        Extraction::Exists { selector_string, field_name, .. } => {
            if f == FieldId::Selector {
                apply_str_edit(selector_string, e);
            } else if f == FieldId::FieldName {
                apply_str_edit(field_name, e);
            }
        },
        Extraction::MultipleText { selector_string, field_name, .. } => {
            if f == FieldId::Selector {
                apply_str_edit(selector_string, e);
            } else if f == FieldId::FieldName {
                apply_str_edit(field_name, e);
            }
        },
        Extraction::Attribute { selector_string, field_name, attr_str, .. } => {
            if f == FieldId::Selector {
                apply_str_edit(selector_string, e);
            } else if f == FieldId::FieldName {
                apply_str_edit(field_name, e);
            } else if f == FieldId::AttrStr {
                apply_str_edit(attr_str, e);
            }
        },
        _ => {},
    }
}

fn edit_action_u64(x: &mut Action, f: FieldId, e: BindEdit)
    ensures
        match action_u64_param(*old(x), f) {
            Some(b) => action_u64_param(*final(x), f) matches Some(nb) && *final(x) == action_with_u64(*old(x), f, nb)
                && apply_u64_edit_ok(b, nb, e),
            None => *final(x) == *old(x),
        },
{
    match x {
        Action::WaitFor { time_ms, .. } => {
            if f == FieldId::TimeMs {
                apply_u64_edit(time_ms, e);
            }
        },
        Action::GetHTML { time_ms, .. } => {
            if f == FieldId::TimeMs {
                apply_u64_edit(time_ms, e);
            }
        },
        Action::SwitchTab { index, .. } => {
            if f == FieldId::Index {
                apply_u64_edit(index, e);
            }
        },
        Action::Wait { time_ms, .. } => {
            if f == FieldId::TimeMs {
                apply_u64_edit(time_ms, e);
            }
        },
        _ => {},
    }
}

fn edit_action_i64(x: &mut Action, f: FieldId, e: BindEdit)
    ensures
        match action_i64_param(*old(x), f) {
            Some(b) => action_i64_param(*final(x), f) matches Some(nb) && *final(x) == action_with_i64(*old(x), f, nb)
                && apply_i64_edit_ok(b, nb, e),
            None => *final(x) == *old(x),
        },
{
    match x {
        Action::ScrollDown { scroll, .. } => {
            if f == FieldId::Scroll {
                apply_i64_edit(scroll, e);
            }
        },
        Action::ScrollUp { scroll, .. } => {
            if f == FieldId::Scroll {
                apply_i64_edit(scroll, e);
            }
        },
        _ => {},
    }
}

/// The text parameter of a handler that field `f` names.
pub open spec fn str_param(h: Handler, f: FieldId) -> Option<BindValue<String>> {
    match h {
        Handler::Item(Step::Act(a)) => action_str_param(a, f),
        Handler::Item(Step::Extract(e)) => ext_str_param(e, f),
        Handler::Container { selector, .. } => if f == FieldId::Selector {
            Some(selector)
        } else {
            None
        },
        Handler::SubSequence(_) => None,
    }
}

/// The handler with the text parameter that `f` names set to `b`.
pub open spec fn with_str(h: Handler, f: FieldId, b: BindValue<String>) -> Handler {
    match h {
        Handler::Item(Step::Act(a)) => Handler::Item(Step::Act(action_with_str(a, f, b))),
        Handler::Item(Step::Extract(e)) => Handler::Item(Step::Extract(ext_with_str(e, f, b))),
        Handler::Container { steps, dedup, .. } => if f == FieldId::Selector {
            Handler::Container { selector: b, steps, dedup }
        } else {
            h
        },
        Handler::SubSequence(_) => h,
    }
}

/// The unsigned parameter of a handler that field `f` names.
pub open spec fn u64_param(h: Handler, f: FieldId) -> Option<BindValue<u64>> {
    match h {
        Handler::Item(Step::Act(a)) => action_u64_param(a, f),
        _ => None,
    }
}

/// The handler with the unsigned parameter that `f` names set to `b`.
pub open spec fn with_u64(h: Handler, f: FieldId, b: BindValue<u64>) -> Handler {
    match h {
        Handler::Item(Step::Act(a)) => Handler::Item(Step::Act(action_with_u64(a, f, b))),
        _ => h,
    }
}

/// The signed parameter of a handler that field `f` names.
pub open spec fn i64_param(h: Handler, f: FieldId) -> Option<BindValue<i64>> {
    match h {
        Handler::Item(Step::Act(a)) => action_i64_param(a, f),
        _ => None,
    }
}

/// The handler with the signed parameter that `f` names set to `b`.
pub open spec fn with_i64(h: Handler, f: FieldId, b: BindValue<i64>) -> Handler {
    match h {
        Handler::Item(Step::Act(a)) => Handler::Item(Step::Act(action_with_i64(a, f, b))),
        _ => h,
    }
}

/// Edits the text parameter of `h` that `f` names, when it has one.
pub fn edit_handler_str(h: &mut Handler, f: FieldId, e: BindEdit)
    ensures
        match str_param(*old(h), f) {
            Some(b) => str_param(*final(h), f) matches Some(nb) && *final(h) == with_str(*old(h), f, nb)
                && apply_str_edit_ok(b, nb, e),
            None => *final(h) == *old(h),
        },
{
    match h {
        Handler::Item(Step::Act(a)) => edit_action_str(a, f, e),
        Handler::Item(Step::Extract(x)) => edit_ext_str(x, f, e),
        Handler::Container { selector, .. } => {
            if f == FieldId::Selector {
                apply_str_edit(selector, e);
            }
        },
        Handler::SubSequence(_) => {},
    }
}

/// Edits the unsigned parameter of `h` that `f` names, when it has one.
pub fn edit_handler_u64(h: &mut Handler, f: FieldId, e: BindEdit)
    ensures
        match u64_param(*old(h), f) {
            Some(b) => u64_param(*final(h), f) matches Some(nb) && *final(h) == with_u64(*old(h), f, nb)
                && apply_u64_edit_ok(b, nb, e),
            None => *final(h) == *old(h),
        },
{
    match h {
        Handler::Item(Step::Act(a)) => edit_action_u64(a, f, e),
        _ => {},
    }
}

/// Edits the signed parameter of `h` that `f` names, when it has one.
pub fn edit_handler_i64(h: &mut Handler, f: FieldId, e: BindEdit)
    ensures
        match i64_param(*old(h), f) {
            Some(b) => i64_param(*final(h), f) matches Some(nb) && *final(h) == with_i64(*old(h), f, nb)
                && apply_i64_edit_ok(b, nb, e),
            None => *final(h) == *old(h),
        },
{
    match h {
        Handler::Item(Step::Act(a)) => edit_action_i64(a, f, e),
        _ => {},
    }
}


// ---------------------------------------------------------------------
// The editor
// ---------------------------------------------------------------------

/// The form of the handler being edited, with what the form offers: the
/// sub-sequences to pick from, the fields of the container before the
/// handler, the keys the picked sub-sequence reads, and its mappings.
#[derive(Debug)]
pub struct EditorState {
    pub is_open: bool,
    pub handler: Handler,
    pub available_sequences: Vec<String>,
    pub container_fields: Vec<ContainerField>,
    pub subsequence_binding_keys: Vec<String>,
    pub input_mappings: Vec<InputMapping>,
}

/// The mappings `v` are those that the metadata lines hold, each with its source.
pub open spec fn mappings_from(v: Seq<InputMapping>, meta: Seq<String>) -> bool {
    let ms = mappings_of(strs(meta), meta.len() as int);
    &&& v.len() == ms.len()
    &&& forall|i: int| 0 <= i < v.len() ==> mapping_view(#[trigger] v[i]) == (ms[i].0, Some(ms[i].1))
}

/// `keys` are the binding keys that `seq` reads, sorted, each once.
pub open spec fn keys_of_sequence(keys: Seq<String>, seq: Sequence) -> bool {
    &&& strictly_sorted(strs(keys))
    &&& forall|x: Seq<char>|
        strs(keys).contains(x) <==> handlers_scan(seq.step_sequence@, seq.step_sequence@.len() as int).0.contains(x)
}

/// What opening `h` makes of the form.
pub open spec fn opened(old: EditorState, new: EditorState, h: Handler) -> bool {
    &&& new.is_open
    &&& new.handler == h
    &&& new.available_sequences == old.available_sequences
    &&& new.container_fields == old.container_fields
    &&& match h {
        Handler::SubSequence(seq) => {
            &&& mappings_from(new.input_mappings@, seq.metadata@)
            &&& keys_of_sequence(new.subsequence_binding_keys@, seq)
        },
        _ => new.input_mappings@.len() == 0 && new.subsequence_binding_keys@.len() == 0,
    }
}

impl Default for EditorState {
    fn default() -> (s: Self)
        ensures
            !s.is_open,
            s.handler matches Handler::Item(Step::Act(a)) && is_default_action(a, "Click"@),
            s.available_sequences@.len() == 0,
            s.container_fields@.len() == 0,
            s.subsequence_binding_keys@.len() == 0,
            s.input_mappings@.len() == 0,
    {
        EditorState {
            is_open: false,
            handler: Handler::Item(Step::Act(Action::Click { selector_string: BindValue::new(String::new()) })),
            available_sequences: Vec::new(),
            container_fields: Vec::new(),
            subsequence_binding_keys: Vec::new(),
            input_mappings: Vec::new(),
        }
    }
}

impl EditorState {
    /// Opens the form on `handler`; a sub-sequence brings its mappings and
    /// the keys it reads.
    pub fn open(&mut self, handler: Handler)
        ensures
            opened(*old(self), *final(self), handler),
    {
        self.is_open = true;
        match &handler {
            Handler::SubSequence(seq) => {
                self.input_mappings = parse_mappings_from_metadata(&seq.metadata);
                self.subsequence_binding_keys = extract_binding_keys_from_sequence(seq);
            },
            _ => {
                self.input_mappings = Vec::new();
                self.subsequence_binding_keys = Vec::new();
            },
        }
        self.handler = handler;
    }

    /// Sets the fields of the container before the handler.
    pub fn set_container_context(&mut self, fields: Vec<ContainerField>)
        ensures
            final(self).container_fields == fields,
            final(self).is_open == old(self).is_open,
            final(self).handler == old(self).handler,
            final(self).available_sequences == old(self).available_sequences,
            final(self).subsequence_binding_keys == old(self).subsequence_binding_keys,
            final(self).input_mappings == old(self).input_mappings,
    {
        self.container_fields = fields;
    }

    /// Opens the form on a fresh click action.
    pub fn open_new_action(&mut self)
        ensures
            final(self).handler matches Handler::Item(Step::Act(a)) && is_default_action(a, "Click"@),
            opened(*old(self), *final(self), final(self).handler),
    {
        self.open(Handler::Item(Step::Act(Action::Click { selector_string: BindValue::new(String::new()) })));
    }

    /// Opens the form on a fresh text extraction.
    pub fn open_new_extraction(&mut self)
        ensures
            final(self).handler matches Handler::Item(Step::Extract(e)) && is_default_extraction(e, "Text"@),
            opened(*old(self), *final(self), final(self).handler),
    {
        self.open(
            Handler::Item(
                Step::Extract(
                    Extraction::Text {
                        selector_string: BindValue::new(String::new()),
                        field_name: BindValue::new(String::new()),
                    },
                ),
            ),
        );
    }

    /// Opens the form on a fresh container: empty selector, no steps, no dedup.
    pub fn open_new_container(&mut self)
        ensures
            final(self).handler matches Handler::Container { selector, steps, dedup } && empty_param(selector)
                && steps@.len() == 0 && !dedup,
            opened(*old(self), *final(self), final(self).handler),
    {
        self.open(Handler::Container { selector: BindValue::new(String::new()), steps: Vec::new(), dedup: false });
    }

    /// Closes the form; what it offered goes.
    pub fn close(&mut self)
        ensures
            !final(self).is_open,
            final(self).handler == old(self).handler,
            final(self).available_sequences == old(self).available_sequences,
            final(self).container_fields@.len() == 0,
            final(self).subsequence_binding_keys@.len() == 0,
            final(self).input_mappings@.len() == 0,
    {
        self.is_open = false;
        self.container_fields = Vec::new();
        self.subsequence_binding_keys = Vec::new();
        self.input_mappings = Vec::new();
    }

    /// The kind of handler the form edits, as its title names it.
    pub fn kind_name(&self) -> (r: &'static str)
        ensures
            r@ == match self.handler {
                Handler::Item(Step::Act(_)) => "Action"@,
                Handler::Item(Step::Extract(_)) => "Extraction"@,
                Handler::Container { .. } => "Container"@,
                Handler::SubSequence(_) => "SubSequence"@,
            },
    {
        match &self.handler {
            Handler::Item(Step::Act(_)) => "Action",
            Handler::Item(Step::Extract(_)) => "Extraction",
            Handler::Container { .. } => "Container",
            Handler::SubSequence(_) => "SubSequence",
        }
    }

    /// Writes the mappings into the metadata of the sub-sequence being
    /// edited, in place of its mapping lines.
    pub fn apply_mappings_to_handler(&mut self)
        ensures
            final(self).is_open == old(self).is_open,
            final(self).available_sequences == old(self).available_sequences,
            final(self).container_fields == old(self).container_fields,
            final(self).subsequence_binding_keys == old(self).subsequence_binding_keys,
            final(self).input_mappings == old(self).input_mappings,
            match old(self).handler {
                Handler::SubSequence(s) => final(self).handler matches Handler::SubSequence(t) && t.sequence_name
                    == s.sequence_name && t.step_sequence == s.step_sequence && t.target_data == s.target_data
                    && strs(t.metadata@) == plain_lines(strs(s.metadata@), s.metadata@.len() as int) + lines_of(
                    mappings_view(old(self).input_mappings@),
                    old(self).input_mappings@.len() as int,
                ),
                _ => final(self).handler == old(self).handler,
            },
    {
        if let Handler::SubSequence(seq) = &mut self.handler {
            let m = metadata_with_mappings(&seq.metadata, &self.input_mappings);
            seq.metadata = m;
        }
    }
}

/// A change made in the form.
#[derive(Debug)]
pub enum EditorMsg {
    ChangeHandlerKind(String),
    ActionVariantChanged(String),
    ExtractionVariantChanged(String),
    BindStrValueChanged(FieldId, String),
    BindStrKeyChanged(FieldId, String),
    BindStrToggle(FieldId, bool),
    BindU64ValueChanged(FieldId, String),
    BindU64KeyChanged(FieldId, String),
    BindU64Toggle(FieldId, bool),
    ContainerDedupToggled(bool),
    AddContainerStep,
    RemoveContainerStep(usize),
    ContainerStepExtractionChanged(usize, String),
    ContainerStepBindStr(usize, FieldId, String),
    ContainerStepBindStrKey(usize, FieldId, String),
    ContainerStepBindStrToggle(usize, FieldId, bool),
    SubSeqNameChanged(String),
    SubSeqSelectFromList(String),
    SubSeqJsonPathChanged(String),
    AddInputMapping,
    RemoveInputMapping(usize),
    MappingBindingKeyChanged(usize, String),
    MappingSourceChanged(usize, String),
    KeyActionChanged(String),
    Close,
    Save,
    BindI64ValueChanged(FieldId, String),
    BindI64KeyChanged(FieldId, String),
    BindI64Toggle(FieldId, bool),
}

/// Everything but the handler is as it was.
pub open spec fn same_rest(o: EditorState, n: EditorState) -> bool {
    &&& n.is_open == o.is_open
    &&& n.available_sequences == o.available_sequences
    &&& n.container_fields == o.container_fields
    &&& n.subsequence_binding_keys == o.subsequence_binding_keys
    &&& n.input_mappings == o.input_mappings
}

/// Everything but the mappings is as it was.
pub open spec fn same_but_mappings(o: EditorState, n: EditorState) -> bool {
    &&& n.is_open == o.is_open
    &&& n.handler == o.handler
    &&& n.available_sequences == o.available_sequences
    &&& n.container_fields == o.container_fields
    &&& n.subsequence_binding_keys == o.subsequence_binding_keys
}

/// The text parameter that `f` names was edited by `e`.
pub open spec fn str_edited(o: EditorState, n: EditorState, f: FieldId, e: BindEdit) -> bool {
    &&& same_rest(o, n)
    &&& match str_param(o.handler, f) {
        Some(b) => str_param(n.handler, f) matches Some(nb) && n.handler == with_str(o.handler, f, nb)
            && apply_str_edit_ok(b, nb, e),
        None => n.handler == o.handler,
    }
}

/// The unsigned parameter that `f` names was edited by `e`.
pub open spec fn u64_edited(o: EditorState, n: EditorState, f: FieldId, e: BindEdit) -> bool {
    &&& same_rest(o, n)
    &&& match u64_param(o.handler, f) {
        Some(b) => u64_param(n.handler, f) matches Some(nb) && n.handler == with_u64(o.handler, f, nb)
            && apply_u64_edit_ok(b, nb, e),
        None => n.handler == o.handler,
    }
}

/// The signed parameter that `f` names was edited by `e`.
pub open spec fn i64_edited(o: EditorState, n: EditorState, f: FieldId, e: BindEdit) -> bool {
    &&& same_rest(o, n)
    &&& match i64_param(o.handler, f) {
        Some(b) => i64_param(n.handler, f) matches Some(nb) && n.handler == with_i64(o.handler, f, nb)
            && apply_i64_edit_ok(b, nb, e),
        None => n.handler == o.handler,
    }
}

/// The container's steps became `f(steps)`; its selector and dedup stay.
pub open spec fn steps_now(o: EditorState, n: EditorState, t: Seq<Step>) -> bool {
    &&& same_rest(o, n)
    &&& o.handler matches Handler::Container { selector, dedup, .. }
    &&& n.handler matches Handler::Container { selector: s2, steps: t2, dedup: d2 }
    &&& s2 == selector
    &&& d2 == dedup
    &&& t2@ == t
}

/// The text parameter that `f` names, of the extraction at step `idx` of
/// the container, was edited by `e`.
pub open spec fn step_str_edited(o: EditorState, n: EditorState, idx: usize, f: FieldId, e: BindEdit) -> bool {
    match o.handler {
        Handler::Container { steps, .. } => if idx < steps@.len() {
            match steps@[idx as int] {
                Step::Extract(x) => match ext_str_param(x, f) {
                    Some(b) => {
                        &&& n.handler matches Handler::Container { steps: t2, .. }
                        &&& t2@[idx as int] matches Step::Extract(y)
                        &&& ext_str_param(y, f) matches Some(nb)
                        &&& y == ext_with_str(x, f, nb)
                        &&& apply_str_edit_ok(b, nb, e)
                        &&& steps_now(o, n, steps@.update(idx as int, Step::Extract(y)))
                    },
                    None => steps_now(o, n, steps@),
                },
                Step::Act(_) => steps_now(o, n, steps@),
            }
        } else {
            steps_now(o, n, steps@)
        },
        _ => n == o,
    }
}

/// The form after it closed.
pub open spec fn closed(o: EditorState, n: EditorState) -> bool {
    &&& !n.is_open
    &&& n.available_sequences == o.available_sequences
    &&& n.container_fields@.len() == 0
    &&& n.subsequence_binding_keys@.len() == 0
    &&& n.input_mappings@.len() == 0
}

/// The handler after the mappings were written into its metadata.
pub open spec fn with_mappings_applied(o: EditorState, h: Handler) -> bool {
    match o.handler {
        Handler::SubSequence(s) => h matches Handler::SubSequence(t) && t.sequence_name == s.sequence_name
            && t.step_sequence == s.step_sequence && t.target_data == s.target_data && strs(t.metadata@)
            == plain_lines(strs(s.metadata@), s.metadata@.len() as int) + lines_of(
            mappings_view(o.input_mappings@),
            o.input_mappings@.len() as int,
        ),
        _ => h == o.handler,
    }
}

/// The form after a change of the handler's kind to `kind`: a fresh
/// handler of that kind; an unknown kind changes nothing.
pub open spec fn kind_changed(o: EditorState, n: EditorState, kind: String) -> bool {
    if kind@ == "Action"@ {
        n.handler matches Handler::Item(Step::Act(a)) && is_default_action(a, "Click"@) && opened(o, n, n.handler)
    } else if kind@ == "Extraction"@ {
        n.handler matches Handler::Item(Step::Extract(e)) && is_default_extraction(e, "Text"@) && opened(
            o,
            n,
            n.handler,
        )
    } else if kind@ == "Container"@ {
        n.handler matches Handler::Container { selector, steps, dedup } && empty_param(selector) && steps@.len()
            == 0 && !dedup && opened(o, n, n.handler)
    } else if kind@ == "SubSequence"@ {
        &&& n.handler matches Handler::SubSequence(s) && s.sequence_name@.len() == 0 && s.step_sequence@.len() == 0
            && s.target_data@ == Map::<Seq<char>, String>::empty() && s.metadata@.len() == 0
        &&& n.subsequence_binding_keys@.len() == 0
        &&& n.is_open == o.is_open
        &&& n.available_sequences == o.available_sequences
        &&& n.container_fields == o.container_fields
        &&& n.input_mappings == o.input_mappings
    } else {
        n == o
    }
}

/// The form after the action kind changed to `v`.
pub open spec fn action_kind_changed(o: EditorState, n: EditorState, v: String) -> bool {
    match o.handler {
        Handler::Item(Step::Act(_)) => n.handler matches Handler::Item(Step::Act(a)) && is_default_action(a, v@)
            && same_rest(o, n),
        _ => n == o,
    }
}

/// The form after the extraction kind changed to `v`.
pub open spec fn extraction_kind_changed(o: EditorState, n: EditorState, v: String) -> bool {
    match o.handler {
        Handler::Item(Step::Extract(_)) => n.handler matches Handler::Item(Step::Extract(e))
            && is_default_extraction(e, v@) && same_rest(o, n),
        _ => n == o,
    }
}

/// The form after the container's dedup was set to `v`.
pub open spec fn dedup_set(o: EditorState, n: EditorState, v: bool) -> bool {
    match o.handler {
        Handler::Container { selector, steps, .. } => n.handler == Handler::Container { selector, steps, dedup: v }
            && same_rest(o, n),
        _ => n == o,
    }
}

/// The form after a fresh text extraction step was added to the container.
pub open spec fn step_added(o: EditorState, n: EditorState) -> bool {
    match o.handler {
        Handler::Container { steps, .. } => {
            &&& n.handler matches Handler::Container { steps: t2, .. }
            &&& t2@.len() == steps@.len() + 1
            &&& t2@.last() matches Step::Extract(e)
            &&& is_default_extraction(e, "Text"@)
            &&& steps_now(o, n, steps@.push(t2@.last()))
        },
        _ => n == o,
    }
}

/// The form after step `idx` of the container was removed.
pub open spec fn step_removed(o: EditorState, n: EditorState, idx: usize) -> bool {
    match o.handler {
        Handler::Container { steps, .. } => if idx < steps@.len() {
            steps_now(o, n, steps@.remove(idx as int))
        } else {
            steps_now(o, n, steps@)
        },
        _ => n == o,
    }
}

/// The form after step `idx` of the container became a fresh extraction
/// of kind `v`.
pub open spec fn step_kind_changed(o: EditorState, n: EditorState, idx: usize, v: String) -> bool {
    match o.handler {
        Handler::Container { steps, .. } => if idx < steps@.len() {
            &&& n.handler matches Handler::Container { steps: t2, .. }
            &&& t2@[idx as int] matches Step::Extract(e)
            &&& is_default_extraction(e, v@)
            &&& steps_now(o, n, steps@.update(idx as int, t2@[idx as int]))
        } else {
            steps_now(o, n, steps@)
        },
        _ => n == o,
    }
}

/// The form after the sub-sequence was named `name`.
pub open spec fn sub_renamed(o: EditorState, n: EditorState, name: String) -> bool {
    match o.handler {
        Handler::SubSequence(s) => n.handler matches Handler::SubSequence(t) && t.sequence_name == name
            && t.step_sequence == s.step_sequence && t.target_data == s.target_data && t.metadata == s.metadata
            && same_rest(o, n),
        _ => n == o,
    }
}

/// The form after an empty mapping was added.
pub open spec fn mapping_added(o: EditorState, n: EditorState) -> bool {
    &&& same_but_mappings(o, n)
    &&& n.input_mappings@.len() == o.input_mappings@.len() + 1
    &&& n.input_mappings@.subrange(0, o.input_mappings@.len() as int) == o.input_mappings@
    &&& n.input_mappings@.last().binding_key@.len() == 0
    &&& n.input_mappings@.last().source_field is None
}

/// The form after mapping `idx` was removed.
pub open spec fn mapping_removed(o: EditorState, n: EditorState, idx: usize) -> bool {
    &&& same_but_mappings(o, n)
    &&& n.input_mappings@ == if idx < o.input_mappings@.len() {
        o.input_mappings@.remove(idx as int)
    } else {
        o.input_mappings@
    }
}

/// The form after the key of mapping `idx` was picked: `(none)` empties it.
pub open spec fn mapping_key_set(o: EditorState, n: EditorState, idx: usize, key: String) -> bool {
    &&& same_but_mappings(o, n)
    &&& if idx < o.input_mappings@.len() {
        &&& n.input_mappings@ == o.input_mappings@.update(idx as int, n.input_mappings@[idx as int])
        &&& n.input_mappings@[idx as int].binding_key@ == if key@ == "(none)"@ {
            Seq::<char>::empty()
        } else {
            key@
        }
        &&& n.input_mappings@[idx as int].source_field == o.input_mappings@[idx as int].source_field
    } else {
        n.input_mappings@ == o.input_mappings@
    }
}

/// The form after the source of mapping `idx` was picked: empty or
/// `(none)` removes it.
pub open spec fn mapping_source_set(o: EditorState, n: EditorState, idx: usize, src: String) -> bool {
    &&& same_but_mappings(o, n)
    &&& if idx < o.input_mappings@.len() {
        n.input_mappings@ == o.input_mappings@.update(
            idx as int,
            InputMapping {
                binding_key: o.input_mappings@[idx as int].binding_key,
                source_field: if src@.len() == 0 || src@ == "(none)"@ {
                    None
                } else {
                    Some(src)
                },
            },
        )
    } else {
        n.input_mappings@ == o.input_mappings@
    }
}

/// The form after the key of a key press was picked by name.
pub open spec fn key_set(o: EditorState, n: EditorState, k: String) -> bool {
    match o.handler {
        Handler::Item(Step::Act(Action::PressKey { .. })) => n.handler == Handler::Item(
            Step::Act(Action::PressKey { key: key_of_name(k@) }),
        ) && same_rest(o, n),
        _ => n == o,
    }
}

/// The form `n` after change `msg` to the form `o`.
pub open spec fn editor_next(o: EditorState, msg: EditorMsg, n: EditorState) -> bool {
    match msg {
        EditorMsg::ChangeHandlerKind(kind) => kind_changed(o, n, kind),
        EditorMsg::ActionVariantChanged(v) => action_kind_changed(o, n, v),
        EditorMsg::ExtractionVariantChanged(v) => extraction_kind_changed(o, n, v),
        EditorMsg::BindStrValueChanged(f, v) => str_edited(o, n, f, BindEdit::Value(v)),
        EditorMsg::BindStrKeyChanged(f, k) => str_edited(o, n, f, BindEdit::Key(k)),
        EditorMsg::BindStrToggle(f, on) => str_edited(o, n, f, BindEdit::Toggle(on)),
        EditorMsg::BindU64ValueChanged(f, v) => u64_edited(o, n, f, BindEdit::Value(v)),
        EditorMsg::BindU64KeyChanged(f, k) => u64_edited(o, n, f, BindEdit::Key(k)),
        EditorMsg::BindU64Toggle(f, on) => u64_edited(o, n, f, BindEdit::Toggle(on)),
        EditorMsg::BindI64ValueChanged(f, v) => i64_edited(o, n, f, BindEdit::Value(v)),
        EditorMsg::BindI64KeyChanged(f, k) => i64_edited(o, n, f, BindEdit::Key(k)),
        EditorMsg::BindI64Toggle(f, on) => i64_edited(o, n, f, BindEdit::Toggle(on)),
        EditorMsg::ContainerDedupToggled(v) => dedup_set(o, n, v),
        EditorMsg::AddContainerStep => step_added(o, n),
        EditorMsg::RemoveContainerStep(idx) => step_removed(o, n, idx),
        EditorMsg::ContainerStepExtractionChanged(idx, v) => step_kind_changed(o, n, idx, v),
        EditorMsg::ContainerStepBindStr(idx, f, v) => step_str_edited(o, n, idx, f, BindEdit::Value(v)),
        EditorMsg::ContainerStepBindStrKey(idx, f, k) => step_str_edited(o, n, idx, f, BindEdit::Key(k)),
        EditorMsg::ContainerStepBindStrToggle(idx, f, on) => step_str_edited(o, n, idx, f, BindEdit::Toggle(on)),
        EditorMsg::SubSeqNameChanged(name) => sub_renamed(o, n, name),
        EditorMsg::SubSeqSelectFromList(name) => sub_renamed(o, n, name),
        EditorMsg::SubSeqJsonPathChanged(_) => n == o,
        EditorMsg::AddInputMapping => mapping_added(o, n),
        EditorMsg::RemoveInputMapping(idx) => mapping_removed(o, n, idx),
        EditorMsg::MappingBindingKeyChanged(idx, key) => mapping_key_set(o, n, idx, key),
        EditorMsg::MappingSourceChanged(idx, src) => mapping_source_set(o, n, idx, src),
        EditorMsg::KeyActionChanged(k) => key_set(o, n, k),
        EditorMsg::Close => closed(o, n) && n.handler == o.handler,
        EditorMsg::Save => closed(o, n) && with_mappings_applied(o, n.handler),
    }
}

impl EditorState {
    /// Applies a change made in the form.
    pub fn update(&mut self, msg: EditorMsg)
        ensures
            editor_next(*old(self), msg, *final(self)),
    {
        match msg {
            EditorMsg::ChangeHandlerKind(kind) => self.change_kind(kind),
            EditorMsg::ActionVariantChanged(v) => self.change_action_kind(v),
            EditorMsg::ExtractionVariantChanged(v) => self.change_extraction_kind(v),
            EditorMsg::BindStrValueChanged(f, v) => edit_handler_str(&mut self.handler, f, BindEdit::Value(v)),
            EditorMsg::BindStrKeyChanged(f, k) => edit_handler_str(&mut self.handler, f, BindEdit::Key(k)),
            EditorMsg::BindStrToggle(f, on) => edit_handler_str(&mut self.handler, f, BindEdit::Toggle(on)),
            EditorMsg::BindU64ValueChanged(f, v) => edit_handler_u64(&mut self.handler, f, BindEdit::Value(v)),
            EditorMsg::BindU64KeyChanged(f, k) => edit_handler_u64(&mut self.handler, f, BindEdit::Key(k)),
            EditorMsg::BindU64Toggle(f, on) => edit_handler_u64(&mut self.handler, f, BindEdit::Toggle(on)),
            EditorMsg::BindI64ValueChanged(f, v) => edit_handler_i64(&mut self.handler, f, BindEdit::Value(v)),
            EditorMsg::BindI64KeyChanged(f, k) => edit_handler_i64(&mut self.handler, f, BindEdit::Key(k)),
            EditorMsg::BindI64Toggle(f, on) => edit_handler_i64(&mut self.handler, f, BindEdit::Toggle(on)),
            EditorMsg::ContainerDedupToggled(v) => self.set_dedup(v),
            EditorMsg::AddContainerStep => self.add_step(),
            EditorMsg::RemoveContainerStep(idx) => self.remove_step(idx),
            EditorMsg::ContainerStepExtractionChanged(idx, v) => self.change_step_kind(idx, v),
            EditorMsg::ContainerStepBindStr(idx, f, v) => self.edit_step_str(idx, f, BindEdit::Value(v)),
            EditorMsg::ContainerStepBindStrKey(idx, f, k) => self.edit_step_str(idx, f, BindEdit::Key(k)),
            EditorMsg::ContainerStepBindStrToggle(idx, f, on) => self.edit_step_str(idx, f, BindEdit::Toggle(on)),
            EditorMsg::SubSeqNameChanged(name) => self.rename_sub(name),
            EditorMsg::SubSeqSelectFromList(name) => self.rename_sub(name),
            EditorMsg::SubSeqJsonPathChanged(_) => {},
            EditorMsg::AddInputMapping => self.add_mapping(),
            EditorMsg::RemoveInputMapping(idx) => self.remove_mapping(idx),
            EditorMsg::MappingBindingKeyChanged(idx, key) => self.set_mapping_key(idx, key),
            EditorMsg::MappingSourceChanged(idx, src) => self.set_mapping_source(idx, src),
            EditorMsg::KeyActionChanged(k) => self.set_key(k),
            EditorMsg::Close => self.close(),
            EditorMsg::Save => {
                self.apply_mappings_to_handler();
                self.close();
            },
        }
    }

    fn change_kind(&mut self, kind: String)
        ensures
            kind_changed(*old(self), *final(self), kind),
    {
        if str_eq(kind.as_str(), "Action") {
            self.open_new_action();
        } else if str_eq(kind.as_str(), "Extraction") {
            self.open_new_extraction();
        } else if str_eq(kind.as_str(), "Container") {
            self.open_new_container();
        } else if str_eq(kind.as_str(), "SubSequence") {
            self.handler = Handler::SubSequence(
                Sequence {
                    sequence_name: String::new(),
                    step_sequence: Vec::new(),
                    target_data: StrMap::new(),
                    metadata: Vec::new(),
                },
            );
            self.subsequence_binding_keys = Vec::new();
        }
    }

    fn change_action_kind(&mut self, v: String)
        ensures
            action_kind_changed(*old(self), *final(self), v),
    {
        if let Handler::Item(Step::Act(_)) = &self.handler {
            self.handler = Handler::Item(Step::Act(default_action_for_variant(v.as_str())));
        }
    }

    fn change_extraction_kind(&mut self, v: String)
        ensures
            extraction_kind_changed(*old(self), *final(self), v),
    {
        if let Handler::Item(Step::Extract(_)) = &self.handler {
            self.handler = Handler::Item(Step::Extract(default_extraction_for_variant(v.as_str())));
        }
    }

    fn set_dedup(&mut self, v: bool)
        ensures
            dedup_set(*old(self), *final(self), v),
    {
        if let Handler::Container { dedup, .. } = &mut self.handler {
            *dedup = v;
        }
    }

    fn add_step(&mut self)
        ensures
            step_added(*old(self), *final(self)),
    {
        if let Handler::Container { steps, .. } = &mut self.handler {
            steps.push(Step::Extract(default_extraction_for_variant("Text")));
        }
    }

    fn remove_step(&mut self, idx: usize)
        ensures
            step_removed(*old(self), *final(self), idx),
    {
        if let Handler::Container { steps, .. } = &mut self.handler {
            if idx < steps.len() {
                steps.remove(idx);
            }
        }
    }

    fn change_step_kind(&mut self, idx: usize, v: String)
        ensures
            step_kind_changed(*old(self), *final(self), idx, v),
    {
        if let Handler::Container { steps, .. } = &mut self.handler {
            if idx < steps.len() {
                steps.set(idx, Step::Extract(default_extraction_for_variant(v.as_str())));
            }
        }
    }

    fn rename_sub(&mut self, name: String)
        ensures
            sub_renamed(*old(self), *final(self), name),
    {
        if let Handler::SubSequence(seq) = &mut self.handler {
            seq.sequence_name = name;
        }
    }

    fn add_mapping(&mut self)
        ensures
            mapping_added(*old(self), *final(self)),
    {
        let ghost before = self.input_mappings@;
        self.input_mappings.push(InputMapping::empty());
        assert(self.input_mappings@.subrange(0, before.len() as int) =~= before);
    }

    fn remove_mapping(&mut self, idx: usize)
        ensures
            mapping_removed(*old(self), *final(self), idx),
    {
        if idx < self.input_mappings.len() {
            self.input_mappings.remove(idx);
        }
    }

    fn set_mapping_key(&mut self, idx: usize, key: String)
        ensures
            mapping_key_set(*old(self), *final(self), idx, key),
    {
        proof {
            reveal_strlit("(none)");
        }
        if idx < self.input_mappings.len() {
            let k = if str_eq(key.as_str(), "(none)") {
                String::new()
            } else {
                key
            };
            let m = &mut self.input_mappings[idx];
            m.binding_key = k;
        }
    }

    fn set_mapping_source(&mut self, idx: usize, src: String)
        ensures
            mapping_source_set(*old(self), *final(self), idx, src),
    {
        proof {
            reveal_strlit("(none)");
        }
        if idx < self.input_mappings.len() {
            let s = if src.as_str().is_empty() || str_eq(src.as_str(), "(none)") {
                None
            } else {
                Some(src)
            };
            let m = &mut self.input_mappings[idx];
            m.source_field = s;
        }
    }

    fn set_key(&mut self, k: String)
        ensures
            key_set(*old(self), *final(self), k),
    {
        if let Handler::Item(Step::Act(Action::PressKey { key })) = &mut self.handler {
            *key = parse_key_action(k.as_str());
        }
    }

    fn edit_step_str(&mut self, idx: usize, f: FieldId, e: BindEdit)
        ensures
            step_str_edited(*old(self), *final(self), idx, f, e),
    {
        if let Handler::Container { steps, .. } = &mut self.handler {
            if idx < steps.len() {
                let ghost before = steps@;
                let mut st = steps.remove(idx);
                if let Step::Extract(x) = &mut st {
                    edit_ext_str(x, f, e);
                }
                steps.insert(idx, st);
                assert(steps@ =~= before.update(idx as int, steps@[idx as int]));
                proof {
                    if steps@[idx as int] == before[idx as int] {
                        assert(steps@ =~= before);
                    }
                }
            }
        }
    }
}


// ---------------------------------------------------------------------
// Mappings read back what was written
// ---------------------------------------------------------------------

/// The mappings `ms[..n]` that have a source and a nonempty key.
pub open spec fn kept_mappings(ms: Seq<(Seq<char>, Option<Seq<char>>)>, n: int) -> Seq<(Seq<char>, Seq<char>)>
    decreases n,
{
    if n <= 0 || n > ms.len() {
        Seq::empty()
    } else {
        kept_mappings(ms, n - 1) + match ms[n - 1].1 {
            Some(src) => if ms[n - 1].0.len() > 0 {
                seq![(ms[n - 1].0, src)]
            } else {
                Seq::<(Seq<char>, Seq<char>)>::empty()
            },
            None => Seq::<(Seq<char>, Seq<char>)>::empty(),
        }
    }
}

proof fn lemma_mappings_prefix(a: Seq<Seq<char>>, b: Seq<Seq<char>>, n: int)
    requires
        0 <= n <= a.len(),
        n <= b.len(),
        a.subrange(0, n) == b.subrange(0, n),
    ensures
        mappings_of(a, n) == mappings_of(b, n),
    decreases n,
{
    if n > 0 {
        assert(a.subrange(0, n - 1) =~= a.subrange(0, n).subrange(0, n - 1));
        assert(b.subrange(0, n - 1) =~= b.subrange(0, n).subrange(0, n - 1));
        assert(a[n - 1] == a.subrange(0, n)[n - 1]);
        assert(b[n - 1] == b.subrange(0, n)[n - 1]);
        lemma_mappings_prefix(a, b, n - 1);
    }
}

proof fn lemma_mappings_concat(a: Seq<Seq<char>>, b: Seq<Seq<char>>, n: int)
    requires
        0 <= n <= b.len(),
    ensures
        mappings_of(a + b, a.len() + n) == mappings_of(a, a.len() as int) + mappings_of(b, n),
    decreases n,
{
    if n == 0 {
        assert((a + b).subrange(0, a.len() as int) =~= a.subrange(0, a.len() as int));
        lemma_mappings_prefix(a + b, a, a.len() as int);
        assert(mappings_of(b, 0) =~= Seq::<(Seq<char>, Seq<char>)>::empty());
        assert(mappings_of(a, a.len() as int) + mappings_of(b, 0) =~= mappings_of(a, a.len() as int));
    } else {
        lemma_mappings_concat(a, b, n - 1);
        assert((a + b)[a.len() + n - 1] == b[n - 1]);
        assert(mappings_of(a + b, a.len() + n) =~= mappings_of(a, a.len() as int) + mappings_of(b, n));
    }
}

proof fn lemma_plain_no_mappings(meta: Seq<Seq<char>>, n: int)
    requires
        0 <= n <= meta.len(),
    ensures
        mappings_of(plain_lines(meta, n), plain_lines(meta, n).len() as int) == Seq::<(Seq<char>, Seq<char>)>::empty(),
        plain_lines(plain_lines(meta, n), plain_lines(meta, n).len() as int) == plain_lines(meta, n),
    decreases n,
{
    if n > 0 {
        lemma_plain_no_mappings(meta, n - 1);
        let p = plain_lines(meta, n - 1);
        if !has_prefix(meta[n - 1], "mapping:"@) {
            let q = p.push(meta[n - 1]);
            assert(q.subrange(0, p.len() as int) =~= p.subrange(0, p.len() as int));
            lemma_mappings_prefix(q, p, p.len() as int);
            lemma_plain_prefix(q, p, p.len() as int);
            assert(q[p.len() as int] == meta[n - 1]);
            assert(mappings_of(q, q.len() as int) =~= Seq::<(Seq<char>, Seq<char>)>::empty());
            assert(plain_lines(q, q.len() as int) =~= q);
        }
    }
}

proof fn lemma_plain_prefix(a: Seq<Seq<char>>, b: Seq<Seq<char>>, n: int)
    requires
        0 <= n <= a.len(),
        n <= b.len(),
        a.subrange(0, n) == b.subrange(0, n),
    ensures
        plain_lines(a, n) == plain_lines(b, n),
    decreases n,
{
    if n > 0 {
        assert(a.subrange(0, n - 1) =~= a.subrange(0, n).subrange(0, n - 1));
        assert(b.subrange(0, n - 1) =~= b.subrange(0, n).subrange(0, n - 1));
        assert(a[n - 1] == a.subrange(0, n)[n - 1]);
        assert(b[n - 1] == b.subrange(0, n)[n - 1]);
        lemma_plain_prefix(a, b, n - 1);
    }
}

proof fn lemma_plain_concat(a: Seq<Seq<char>>, b: Seq<Seq<char>>, n: int)
    requires
        0 <= n <= b.len(),
    ensures
        plain_lines(a + b, a.len() + n) == plain_lines(a, a.len() as int) + plain_lines(b, n),
    decreases n,
{
    if n == 0 {
        assert((a + b).subrange(0, a.len() as int) =~= a.subrange(0, a.len() as int));
        lemma_plain_prefix(a + b, a, a.len() as int);
        assert(plain_lines(a, a.len() as int) + plain_lines(b, 0) =~= plain_lines(a, a.len() as int));
    } else {
        lemma_plain_concat(a, b, n - 1);
        assert((a + b)[a.len() + n - 1] == b[n - 1]);
        if !has_prefix(b[n - 1], "mapping:"@) {
            assert(plain_lines(a + b, a.len() + n) =~= plain_lines(a, a.len() as int) + plain_lines(b, n));
        }
    }
}

proof fn lemma_colon_after_key(k: Seq<char>, s: Seq<char>, i: int)
    requires
        0 <= i <= k.len(),
        !k.contains(':'),
    ensures
        colon_index(k + ":"@ + s, i) == k.len(),
    decreases k.len() - i,
{
    reveal_strlit(":");
    let t = k + ":"@ + s;
    if i < k.len() {
        assert(t[i] == k[i]);
        if k[i] == ':' {
            assert(k.contains(':'));
        }
        lemma_colon_after_key(k, s, i + 1);
    } else {
        assert(t[i] == ':');
    }
}

/// A mapping line reads back as its key and source when the key has no `:`.
proof fn lemma_line_reads_back(k: Seq<char>, s: Seq<char>)
    requires
        !k.contains(':'),
    ensures
        mapping_of(mapping_line(k, s)) == Some((k, s)),
        has_prefix(mapping_line(k, s), "mapping:"@),
{
    reveal_strlit("mapping:");
    reveal_strlit(":");
    let line = mapping_line(k, s);
    assert(line.subrange(0, 8) =~= "mapping:"@);
    let rest = line.subrange(8, line.len() as int);
    assert(rest =~= k + ":"@ + s);
    lemma_colon_after_key(k, s, 0);
    assert(rest.subrange(0, k.len() as int) =~= k);
    assert(rest.subrange(k.len() as int + 1, rest.len() as int) =~= s);
}

/// Every mapping line starts with `mapping:`, whatever its key.
proof fn lemma_mapping_line_prefix(k: Seq<char>, s: Seq<char>)
    ensures
        has_prefix(mapping_line(k, s), "mapping:"@),
{
    reveal_strlit("mapping:");
    assert(mapping_line(k, s).subrange(0, 8) =~= "mapping:"@);
}

/// None of the written mapping lines is a plain line.
proof fn lemma_lines_not_plain(ms: Seq<(Seq<char>, Option<Seq<char>>)>, n: int)
    requires
        0 <= n <= ms.len(),
    ensures
        plain_lines(lines_of(ms, n), lines_of(ms, n).len() as int) == Seq::<Seq<char>>::empty(),
    decreases n,
{
    if n > 0 {
        lemma_lines_not_plain(ms, n - 1);
        let p = lines_of(ms, n - 1);
        match ms[n - 1].1 {
            Some(src) => {
                if ms[n - 1].0.len() > 0 {
                    let l = mapping_line(ms[n - 1].0, src);
                    lemma_mapping_line_prefix(ms[n - 1].0, src);
                    lemma_plain_concat(p, seq![l], 1);
                    assert(p + seq![l] == lines_of(ms, n));
                    assert(seq![l][0] == l);
                    assert(plain_lines(seq![l], 0) =~= Seq::<Seq<char>>::empty());
                    assert(plain_lines(seq![l], 1) =~= Seq::<Seq<char>>::empty());
                    assert(plain_lines(p + seq![l], p.len() as int + 1) =~= Seq::<Seq<char>>::empty());
                } else {
                    assert(lines_of(ms, n) =~= p);
                }
            },
            None => {
                assert(lines_of(ms, n) =~= p);
            },
        }
    }
}

proof fn lemma_lines_read_back(ms: Seq<(Seq<char>, Option<Seq<char>>)>, n: int)
    requires
        0 <= n <= ms.len(),
        forall|i: int| 0 <= i < ms.len() && ms[i].1 is Some ==> !(#[trigger] ms[i].0).contains(':'),
    ensures
        mappings_of(lines_of(ms, n), lines_of(ms, n).len() as int) == kept_mappings(ms, n),
        plain_lines(lines_of(ms, n), lines_of(ms, n).len() as int) == Seq::<Seq<char>>::empty(),
    decreases n,
{
    if n > 0 {
        lemma_lines_read_back(ms, n - 1);
        let p = lines_of(ms, n - 1);
        match ms[n - 1].1 {
            Some(src) => {
                if ms[n - 1].0.len() > 0 {
                    let l = mapping_line(ms[n - 1].0, src);
                    lemma_line_reads_back(ms[n - 1].0, src);
                    lemma_mappings_concat(p, seq![l], 1);
                    lemma_plain_concat(p, seq![l], 1);
                    assert(p + seq![l] == lines_of(ms, n));
                    assert(seq![l][0] == l);
                    assert(mappings_of(seq![l], 0) =~= Seq::<(Seq<char>, Seq<char>)>::empty());
                    assert(plain_lines(seq![l], 0) =~= Seq::<Seq<char>>::empty());
                    assert(mappings_of(seq![l], 1) =~= seq![(ms[n - 1].0, src)]);
                    assert(plain_lines(seq![l], 1) =~= Seq::<Seq<char>>::empty());
                    assert(plain_lines(p + seq![l], p.len() as int + 1) =~= Seq::<Seq<char>>::empty());
                } else {
                    assert(lines_of(ms, n) =~= p);
                }
            },
            None => {
                assert(lines_of(ms, n) =~= p);
            },
        }
    }
}

/// What a read gives back of a write: the mapping lines written for
/// `ms` after the plain lines of `meta` read back as the mappings of `ms`
/// that have a source and a nonempty key, in order, and the plain lines
/// stay as they were; provided no key of a mapping with a source holds a
/// `:`.
pub proof fn law_mappings_round_trip(meta: Seq<Seq<char>>, ms: Seq<(Seq<char>, Option<Seq<char>>)>)
    requires
        forall|i: int| 0 <= i < ms.len() && ms[i].1 is Some ==> !(#[trigger] ms[i].0).contains(':'),
    ensures
        ({
            let lines = plain_lines(meta, meta.len() as int) + lines_of(ms, ms.len() as int);
            &&& mappings_of(lines, lines.len() as int) == kept_mappings(ms, ms.len() as int)
            &&& plain_lines(lines, lines.len() as int) == plain_lines(meta, meta.len() as int)
        }),
{
    let p = plain_lines(meta, meta.len() as int);
    let l = lines_of(ms, ms.len() as int);
    lemma_plain_no_mappings(meta, meta.len() as int);
    lemma_lines_read_back(ms, ms.len() as int);
    lemma_mappings_concat(p, l, l.len() as int);
    lemma_plain_concat(p, l, l.len() as int);
    assert(mappings_of(p, p.len() as int) + kept_mappings(ms, ms.len() as int) =~= kept_mappings(ms, ms.len() as int));
    assert(p + Seq::<Seq<char>>::empty() =~= p);
}


/// Writing mappings keeps the plain lines of the metadata as they were,
/// whatever the keys, and writing the same mappings again onto the result
/// changes nothing.
pub proof fn law_mappings_keep_plain_lines(meta: Seq<Seq<char>>, ms: Seq<(Seq<char>, Option<Seq<char>>)>)
    ensures
        ({
            let lines = plain_lines(meta, meta.len() as int) + lines_of(ms, ms.len() as int);
            &&& plain_lines(lines, lines.len() as int) == plain_lines(meta, meta.len() as int)
            &&& plain_lines(lines, lines.len() as int) + lines_of(ms, ms.len() as int) == lines
        }),
{
    let p = plain_lines(meta, meta.len() as int);
    let l = lines_of(ms, ms.len() as int);
    lemma_plain_no_mappings(meta, meta.len() as int);
    lemma_lines_not_plain(ms, ms.len() as int);
    lemma_plain_concat(p, l, l.len() as int);
    assert(p + Seq::<Seq<char>>::empty() =~= p);
}

/// What the editor writes it reads back: when `apply_mappings_to_handler`
/// has written the mappings `v` into the metadata `meta` (giving
/// `written`), `parse_mappings_from_metadata` on `written` gives exactly
/// the mappings of `v` that have a nonempty key and a source, in the same
/// order, key and source unchanged; provided no such key holds a `:`.
pub proof fn law_apply_then_parse_mappings(
    meta: Seq<String>,
    v: Seq<InputMapping>,
    written: Seq<String>,
    parsed: Seq<InputMapping>,
)
    requires
        forall|i: int| 0 <= i < v.len() && v[i].source_field is Some ==> !(#[trigger] v[i].binding_key@).contains(':'),
        strs(written) == plain_lines(strs(meta), meta.len() as int) + lines_of(mappings_view(v), v.len() as int),
        mappings_from(parsed, written),
    ensures
        parsed.len() == kept_mappings(mappings_view(v), v.len() as int).len(),
        forall|i: int|
            0 <= i < parsed.len() ==> mapping_view(#[trigger] parsed[i]) == ({
                let m = kept_mappings(mappings_view(v), v.len() as int)[i];
                (m.0, Some(m.1))
            }),
{
    let ms = mappings_view(v);
    assert forall|i: int| 0 <= i < ms.len() && ms[i].1 is Some implies !(#[trigger] ms[i].0).contains(':') by {
        assert(ms[i] == mapping_view(v[i]));
    }
    law_mappings_round_trip(strs(meta), ms);
    assert(strs(meta).len() == meta.len());
    assert(strs(written).len() == written.len());
}

} // verus!
