//! How handlers are shown: the texts of bound parameters, the card of a
//! handler (kind, selector, details), and the one-line descriptions of the
//! workflow list.
use vstd::prelude::*;
use vstd::string::StringSliceAdditionalSpecFns;
use vstd::utf8::{decode_utf8, encode_utf8, is_char_boundary};
use crate::editor::{key_action_name, key_name};
use crate::map::StrMap;
use crate::text::{dec_string, i64_to_string, signed_dec_string, u64_to_string, usize_to_string};
use crate::workflow::{Action, BindValue, Extraction, Handler, Step};

verus! {

/// How a bound text parameter shows: `${key}` when bound, else its literal.
pub open spec fn bind_text(b: BindValue<String>) -> Seq<char> {
    match b.binding {
        Some(k) => "${"@ + k@ + "}"@,
        None => b.value@,
    }
}

/// How an unsigned parameter shows: `${key}` when bound, else its number.
pub open spec fn bind_text_u64(b: BindValue<u64>) -> Seq<char> {
    match b.binding {
        Some(k) => "${"@ + k@ + "}"@,
        None => dec_string(b.value as nat),
    }
}

/// How a signed parameter shows: `{{key}}` when bound, else its number.
pub open spec fn bind_text_i64(b: BindValue<i64>) -> Seq<char> {
    match b.binding {
        Some(k) => "{{"@ + k@ + "}}"@,
        None => signed_dec_string(b.value as int),
    }
}

/// How a bound text parameter shows.
pub fn bind_display(b: &BindValue<String>) -> (r: String)
    ensures
        r@ == bind_text(*b),
{
    match &b.binding {
        Some(k) => {
            let mut r = String::from_str("${");
            r.append(k.as_str());
            r.append("}");
            r
        },
        None => b.value.clone(),
    }
}

/// How an unsigned parameter shows.
pub fn bind_display_u64(b: &BindValue<u64>) -> (r: String)
    ensures
        r@ == bind_text_u64(*b),
{
    match &b.binding {
        Some(k) => {
            let mut r = String::from_str("${");
            r.append(k.as_str());
            r.append("}");
            r
        },
        None => u64_to_string(b.value),
    }
}

/// How a signed parameter shows.
pub fn bind_display_i64(b: &BindValue<i64>) -> (r: String)
    ensures
        r@ == bind_text_i64(*b),
{
    match &b.binding {
        Some(k) => {
            let mut r = String::from_str("{{");
            r.append(k.as_str());
            r.append("}}");
            r
        },
        None => i64_to_string(b.value),
    }
}

/// A summary as values.
pub open spec fn summary_view(s: (&'static str, Option<String>, Vec<(&'static str, String)>)) -> (
    Seq<char>,
    Option<Seq<char>>,
    Seq<(Seq<char>, Seq<char>)>,
) {
    (
        s.0@,
        match s.1 {
            Some(x) => Some(x@),
            None => None,
        },
        s.2@.map_values(|p: (&'static str, String)| (p.0@, p.1@)),
    )
}

/// The card summary of an action: its name, its selector when it has
/// one, and its other parameters as labelled texts.
pub open spec fn action_summary_spec(a: Action) -> (Seq<char>, Option<Seq<char>>, Seq<(Seq<char>, Seq<char>)>) {
    match a {
        Action::Click { selector_string } => ("Click"@, Some(bind_text(selector_string)), Seq::empty()),
        Action::Navigate { url } => ("Navigate"@, None, seq![("URL"@, bind_text(url))]),
        Action::WaitFor { selector_string, time_ms } => ("WaitFor"@, Some(bind_text(selector_string)), seq![("Timeout"@, bind_text_u64(time_ms))]),
        Action::ScrollAll => ("ScrollAll"@, None, Seq::empty()),
        Action::ClickByText { selector_string, text } => ("ClickByText"@, Some(bind_text(selector_string)), seq![("Text"@, bind_text(text))]),
        Action::GetHTML { selector_string, time_ms } => ("GetHTML"@, Some(bind_text(selector_string)), seq![("Retry ms"@, bind_text_u64(time_ms))]),
        Action::DismissPermission => ("DismissPermission"@, None, Seq::empty()),
        Action::SwitchToDefaultContent => ("SwitchToDefault"@, None, Seq::empty()),
        Action::SwitchToFrame { selector_string } => ("SwitchToFrame"@, Some(bind_text(selector_string)), Seq::empty()),
        Action::Refresh => ("Refresh"@, None, Seq::empty()),
        Action::Forward => ("Forward"@, None, Seq::empty()),
        Action::Backward => ("Backward"@, None, Seq::empty()),
        Action::NewTab { url } => ("NewTab"@, None, seq![("URL"@, bind_text(url))]),
        Action::SwitchTab { index } => ("SwitchTab"@, None, seq![("Index"@, bind_text_u64(index))]),
        Action::CloseTab => ("CloseTab"@, None, Seq::empty()),
        Action::SwitchToLastTab => ("SwitchToLastTab"@, None, Seq::empty()),
        Action::Type { selector, text } => ("Type"@, Some(bind_text(selector)), seq![("Text"@, bind_text(text))]),
        Action::PressKey { key } => ("PressKey"@, None, seq![("Key"@, key_name(key))]),
        Action::ClearAndType { selector, text } => ("ClearAndType"@, Some(bind_text(selector)), seq![("Text"@, bind_text(text))]),
        Action::NavigateHref { base, href } => ("NavigateHref"@, None, seq![("Base"@, bind_text(base)), ("Href"@, bind_text(href))]),
        Action::ScrollDown { scroll } => ("ScrollDown"@, None, seq![("Pixels"@, bind_text_i64(scroll))]),
        Action::ScrollUp { scroll } => ("ScrollUp"@, None, seq![("Pixels"@, bind_text_i64(scroll))]),
        Action::Wait { time_ms } => ("Wait"@, None, seq![("Duration"@, bind_text_u64(time_ms))]),
    }
}

/// The card summary of an action.
pub fn action_summary(a: &Action) -> (r: (&'static str, Option<String>, Vec<(&'static str, String)>))
    ensures
        summary_view(r) == action_summary_spec(*a),
{
    let r = match a {
        Action::Click { selector_string } => ("Click", Some(bind_display(selector_string)), Vec::new()),
        Action::Navigate { url } => ("Navigate", None, vec![("URL", bind_display(url))]),
        Action::WaitFor { selector_string, time_ms } => ("WaitFor", Some(bind_display(selector_string)), vec![("Timeout", bind_display_u64(time_ms))]),
        Action::ScrollAll => ("ScrollAll", None, Vec::new()),
        Action::ClickByText { selector_string, text } => ("ClickByText", Some(bind_display(selector_string)), vec![("Text", bind_display(text))]),
        Action::GetHTML { selector_string, time_ms } => ("GetHTML", Some(bind_display(selector_string)), vec![("Retry ms", bind_display_u64(time_ms))]),
        Action::DismissPermission => ("DismissPermission", None, Vec::new()),
        Action::SwitchToDefaultContent => ("SwitchToDefault", None, Vec::new()),
        Action::SwitchToFrame { selector_string } => ("SwitchToFrame", Some(bind_display(selector_string)), Vec::new()),
        Action::Refresh => ("Refresh", None, Vec::new()),
        Action::Forward => ("Forward", None, Vec::new()),
        Action::Backward => ("Backward", None, Vec::new()),
        Action::NewTab { url } => ("NewTab", None, vec![("URL", bind_display(url))]),
        Action::SwitchTab { index } => ("SwitchTab", None, vec![("Index", bind_display_u64(index))]),
        Action::CloseTab => ("CloseTab", None, Vec::new()),
        Action::SwitchToLastTab => ("SwitchToLastTab", None, Vec::new()),
        Action::Type { selector, text } => ("Type", Some(bind_display(selector)), vec![("Text", bind_display(text))]),
        Action::PressKey { key } => ("PressKey", None, vec![("Key", String::from_str(key_action_name(key)))]),
        Action::ClearAndType { selector, text } => ("ClearAndType", Some(bind_display(selector)), vec![("Text", bind_display(text))]),
        Action::NavigateHref { base, href } => ("NavigateHref", None, vec![("Base", bind_display(base)), ("Href", bind_display(href))]),
        Action::ScrollDown { scroll } => ("ScrollDown", None, vec![("Pixels", bind_display_i64(scroll))]),
        Action::ScrollUp { scroll } => ("ScrollUp", None, vec![("Pixels", bind_display_i64(scroll))]),
        Action::Wait { time_ms } => ("Wait", None, vec![("Duration", bind_display_u64(time_ms))]),
    };
    proof {
        assert(summary_view(r).2 =~= action_summary_spec(*a).2);
    }
    r
}

/// The card summary of an extraction: its name, its selector, and its
/// field (and attribute) as labelled texts.
pub open spec fn extraction_summary_spec(e: Extraction) -> (Seq<char>, Option<Seq<char>>, Seq<(Seq<char>, Seq<char>)>) {
    match e {
        Extraction::Text { selector_string, field_name } => ("Text"@, Some(bind_text(selector_string)), seq![("Field"@, bind_text(field_name))]),
        Extraction::Count { selector_string, field_name } => ("Count"@, Some(bind_text(selector_string)), seq![("Field"@, bind_text(field_name))]),
        Extraction::Attribute { selector_string, field_name, attr_str } => ("Attribute"@, Some(bind_text(selector_string)), seq![("Field"@, bind_text(field_name)), ("Attr"@, bind_text(attr_str))]),
        Extraction::Exists { selector_string, field_name } => ("Exists"@, Some(bind_text(selector_string)), seq![("Field"@, bind_text(field_name))]),
        Extraction::MultipleText { selector_string, field_name } => ("MultipleText"@, Some(bind_text(selector_string)), seq![("Field"@, bind_text(field_name))]),
    }
}

/// The card summary of an extraction.
pub fn extraction_summary(e: &Extraction) -> (r: (&'static str, Option<String>, Vec<(&'static str, String)>))
    ensures
        summary_view(r) == extraction_summary_spec(*e),
{
    let r = match e {
        Extraction::Text { selector_string, field_name } => ("Text", Some(bind_display(selector_string)), vec![("Field", bind_display(field_name))]),
        Extraction::Count { selector_string, field_name } => ("Count", Some(bind_display(selector_string)), vec![("Field", bind_display(field_name))]),
        Extraction::Attribute { selector_string, field_name, attr_str } => ("Attribute", Some(bind_display(selector_string)), vec![("Field", bind_display(field_name)), ("Attr", bind_display(attr_str))]),
        Extraction::Exists { selector_string, field_name } => ("Exists", Some(bind_display(selector_string)), vec![("Field", bind_display(field_name))]),
        Extraction::MultipleText { selector_string, field_name } => ("MultipleText", Some(bind_display(selector_string)), vec![("Field", bind_display(field_name))]),
    };
    proof {
        assert(summary_view(r).2 =~= extraction_summary_spec(*e).2);
    }
    r
}

/// The icon and the name of a handler's kind on its card.
pub open spec fn handler_meta_spec(h: Handler) -> (Seq<char>, Seq<char>) {
    match h {
        Handler::Item(Step::Act(_)) => ("⚡"@, "Action"@),
        Handler::Item(Step::Extract(_)) => ("📊"@, "Extract"@),
        Handler::Container { .. } => ("📦"@, "Container"@),
        Handler::SubSequence(_) => ("🔄"@, "SubSequence"@),
    }
}

/// The icon and the name of a handler's kind on its card.
pub fn handler_meta(h: &Handler) -> (r: (&'static str, &'static str))
    ensures
        (r.0@, r.1@) == handler_meta_spec(*h),
{
    match h {
        Handler::Item(Step::Act(_)) => ("⚡", "Action"),
        Handler::Item(Step::Extract(_)) => ("📊", "Extract"),
        Handler::Container { .. } => ("📦", "Container"),
        Handler::SubSequence(_) => ("🔄", "SubSequence"),
    }
}

/// What a handler's card shows: a description, a selector, and labelled
/// details.
#[derive(Debug)]
pub struct CardInfo {
    pub description: String,
    pub selector: Option<String>,
    pub details: Vec<(String, String)>,
}

/// How many of `steps[..n]` are extractions.
pub open spec fn extraction_count(steps: Seq<Step>, n: int) -> nat
    decreases n,
{
    if n <= 0 || n > steps.len() {
        0
    } else {
        extraction_count(steps, n - 1) + if steps[n - 1] is Extract {
            1nat
        } else {
            0nat
        }
    }
}

/// The texts joined with `, `.
pub open spec fn comma_joined(items: Seq<Seq<char>>) -> Seq<char>
    decreases items.len(),
{
    if items.len() == 0 {
        Seq::empty()
    } else if items.len() == 1 {
        items[0]
    } else {
        comma_joined(items.drop_last()) + ", "@ + items.last()
    }
}

/// The card of a handler as values.
pub open spec fn card_spec(h: Handler) -> (Seq<char>, Option<Seq<char>>, Seq<(Seq<char>, Seq<char>)>) {
    match h {
        Handler::Item(Step::Act(a)) => action_summary_spec(a),
        Handler::Item(Step::Extract(e)) => extraction_summary_spec(e),
        Handler::Container { selector, steps, dedup } => (
            dec_string(steps@.len()) + " steps ("@ + dec_string(extraction_count(steps@, steps@.len() as int))
                + " extractions)"@,
            Some(bind_text(selector)),
            seq![("Dedup"@, if dedup {
                "true"@
            } else {
                "false"@
            })],
        ),
        Handler::SubSequence(s) => (
            s.sequence_name@,
            None,
            seq![("Steps"@, dec_string(s.step_sequence@.len())), ("Fields"@, comma_joined(s.target_data.key_seq()))],
        ),
    }
}

/// A card as values.
pub open spec fn card_view(c: CardInfo) -> (Seq<char>, Option<Seq<char>>, Seq<(Seq<char>, Seq<char>)>) {
    (
        c.description@,
        match c.selector {
            Some(x) => Some(x@),
            None => None,
        },
        c.details@.map_values(|p: (String, String)| (p.0@, p.1@)),
    )
}

fn owned_details(d: Vec<(&'static str, String)>) -> (r: Vec<(String, String)>)
    ensures
        r@.map_values(|p: (String, String)| (p.0@, p.1@)) == d@.map_values(|p: (&'static str, String)| (p.0@, p.1@)),
{
    let mut r: Vec<(String, String)> = Vec::new();
    let mut i: usize = 0;
    while i < d.len()
        invariant
            i <= d@.len(),
            r@.len() == i,
            r@.map_values(|p: (String, String)| (p.0@, p.1@)) == d@.subrange(0, i as int).map_values(
                |p: (&'static str, String)| (p.0@, p.1@),
            ),
        decreases d@.len() - i,
    {
        let (k, v) = &d[i];
        let key = String::from_str(k);
        let val = v.clone();
        let ghost prev = r@;
        r.push((key, val));
        assert(r@[i as int].0@ == d@[i as int].0@ && r@[i as int].1@ == d@[i as int].1@);
        assert forall|j: int| 0 <= j < i implies (r@[j].0@, r@[j].1@) == (d@[j].0@, d@[j].1@) by {
            assert(r@[j] == prev[j]);
            assert(prev.map_values(|p: (String, String)| (p.0@, p.1@))[j] == d@.subrange(
                0,
                i as int,
            ).map_values(|p: (&'static str, String)| (p.0@, p.1@))[j]);
        }
        assert(r@.map_values(|p: (String, String)| (p.0@, p.1@)) =~= d@.subrange(0, i + 1).map_values(
            |p: (&'static str, String)| (p.0@, p.1@),
        ));
        i = i + 1;
    }
    assert(d@.subrange(0, d@.len() as int) =~= d@);
    r
}

fn join_keys(m: &StrMap<String>) -> (r: String)
    ensures
        r@ == comma_joined(m.key_seq()),
{
    let ks = m.keys();
    let ghost kq = m.key_seq();
    assert(ks@.map_values(|s: String| s@) =~= kq);
    let mut r = String::new();
    let mut i: usize = 0;
    while i < ks.len()
        invariant
            i <= ks@.len(),
            ks@.map_values(|s: String| s@) == kq,
            r@ == comma_joined(kq.subrange(0, i as int)),
        decreases ks@.len() - i,
    {
        let ghost nxt = kq.subrange(0, i + 1);
        assert(nxt.drop_last() =~= kq.subrange(0, i as int));
        assert(nxt.last() == ks@[i as int]@);
        if i > 0 {
            r.append(", ");
        } else {
            assert(nxt.len() == 1);
        }
        r.append(ks[i].as_str());
        assert(r@ =~= comma_joined(nxt));
        i = i + 1;
    }
    assert(kq.subrange(0, ks@.len() as int) =~= kq);
    r
}

/// What the card of a handler shows.
pub fn extract_card_info(h: &Handler) -> (c: CardInfo)
    ensures
        card_view(c) == card_spec(*h),
{
    match h {
        Handler::Item(Step::Act(a)) => {
            let (name, selector, details) = action_summary(a);
            CardInfo { description: String::from_str(name), selector, details: owned_details(details) }
        },
        Handler::Item(Step::Extract(e)) => {
            let (name, selector, details) = extraction_summary(e);
            CardInfo { description: String::from_str(name), selector, details: owned_details(details) }
        },
        Handler::Container { selector, steps, dedup } => {
            let mut k: usize = 0;
            let mut i: usize = 0;
            while i < steps.len()
                invariant
                    i <= steps@.len(),
                    k <= i,
                    k == extraction_count(steps@, i as int),
                decreases steps@.len() - i,
            {
                if let Step::Extract(_) = &steps[i] {
                    k = k + 1;
                }
                i = i + 1;
            }
            let mut d = usize_to_string(steps.len());
            d.append(" steps (");
            let ks = usize_to_string(k);
            d.append(ks.as_str());
            d.append(" extractions)");
            let flag = String::from_str(if *dedup {
                "true"
            } else {
                "false"
            });
            let details = vec![(String::from_str("Dedup"), flag)];
            let c = CardInfo { description: d, selector: Some(bind_display(selector)), details };
            assert(card_view(c).2 =~= card_spec(*h).2);
            c
        },
        Handler::SubSequence(s) => {
            let details = vec![
                (String::from_str("Steps"), usize_to_string(s.step_sequence.len())),
                (String::from_str("Fields"), join_keys(&s.target_data)),
            ];
            let c = CardInfo { description: s.sequence_name.clone(), selector: None, details };
            assert(card_view(c).2 =~= card_spec(*h).2);
            c
        },
    }
}

/// The place where a text longer than `max` bytes is cut.
pub open spec fn cut_point(max: int) -> int {
    if max >= 3 {
        max - 3
    } else {
        0
    }
}

/// Whether a text can be cut for `max` bytes: its length fits the
/// machine, and where it is longer than `max` the cut falls between
/// characters.
pub open spec fn cuttable(s: Seq<char>, max: int) -> bool {
    &&& encode_utf8(s).len() <= usize::MAX
    &&& encode_utf8(s).len() > max ==> is_char_boundary(encode_utf8(s), cut_point(max))
}

/// A text cut to `max` bytes: as it is when it fits, else its first
/// `max - 3` bytes (none when `max < 3`) followed by `...`.
pub open spec fn cut_text(s: Seq<char>, max: int) -> Seq<char> {
    if encode_utf8(s).len() <= max {
        s
    } else {
        decode_utf8(encode_utf8(s).subrange(0, cut_point(max))) + "..."@
    }
}

/// A text cut to `max` bytes.
pub fn truncate_text(s: &str, max: usize) -> (r: String)
    requires
        cuttable(s@, max as int),
    ensures
        r@ == cut_text(s@, max as int),
{
    if s.len() <= max {
        return String::from_str(s);
    }
    let cut = if max >= 3 {
        max - 3
    } else {
        0
    };
    let (head, _) = s.split_at(cut);
    let mut r = String::from_str(head);
    r.append("...");
    proof {
        vstd::utf8::encode_utf8_decode_utf8(head@);
    }
    r
}

/// How a text parameter shows in the workflow list: `${key}` when bound,
/// else its literal cut to thirty bytes.
pub open spec fn short_bind_text(b: BindValue<String>) -> Seq<char> {
    match b.binding {
        Some(k) => "${"@ + k@ + "}"@,
        None => cut_text(b.value@, 30),
    }
}

/// Whether a text parameter can be shown short.
pub open spec fn short_ok(b: BindValue<String>) -> bool {
    b.binding is Some || cuttable(b.value@, 30)
}

/// How a text parameter shows in the workflow list.
pub fn bv_short(b: &BindValue<String>) -> (r: String)
    requires
        short_ok(*b),
    ensures
        r@ == short_bind_text(*b),
{
    match &b.binding {
        Some(k) => {
            let mut r = String::from_str("${");
            r.append(k.as_str());
            r.append("}");
            r
        },
        None => truncate_text(b.value.as_str(), 30),
    }
}

/// Whether every text an action shows in the workflow list can be shown short.
pub open spec fn action_short_ok(a: Action) -> bool {
    match a {
        Action::Click { selector_string } => short_ok(selector_string),
        Action::Navigate { url } => short_ok(url),
        Action::WaitFor { selector_string, .. } => short_ok(selector_string),
        Action::ClickByText { text, .. } => short_ok(text),
        Action::GetHTML { selector_string, .. } => short_ok(selector_string),
        Action::SwitchToFrame { selector_string } => short_ok(selector_string),
        Action::NewTab { url } => short_ok(url),
        Action::Type { selector, .. } => short_ok(selector),
        Action::ClearAndType { selector, .. } => short_ok(selector),
        Action::NavigateHref { base, href } => short_ok(base) && short_ok(href),
        _ => true,
    }
}

/// The one-line description of an action in the workflow list.
pub open spec fn action_short_text(a: Action) -> Seq<char> {
    match a {
        Action::Click { selector_string } => "Click: "@ + short_bind_text(selector_string),
        Action::Navigate { url } => "Navigate: "@ + short_bind_text(url),
        Action::WaitFor { selector_string, .. } => "WaitFor: "@ + short_bind_text(selector_string),
        Action::Wait { time_ms } => "Wait: "@ + dec_string(time_ms.value as nat) + "ms"@,
        Action::ScrollAll => "ScrollAll"@,
        Action::ClickByText { text, .. } => "ClickByText: "@ + short_bind_text(text),
        Action::GetHTML { selector_string, .. } => "GetHTML: "@ + short_bind_text(selector_string),
        Action::DismissPermission => "DismissPermission"@,
        Action::SwitchToDefaultContent => "SwitchToDefault"@,
        Action::SwitchToFrame { selector_string } => "SwitchFrame: "@ + short_bind_text(selector_string),
        Action::Refresh => "Refresh"@,
        Action::Forward => "Forward"@,
        Action::Backward => "Backward"@,
        Action::NewTab { url } => "NewTab: "@ + short_bind_text(url),
        Action::SwitchTab { index } => "SwitchTab: "@ + dec_string(index.value as nat),
        Action::CloseTab => "CloseTab"@,
        Action::SwitchToLastTab => "SwitchToLastTab"@,
        Action::Type { selector, .. } => "Type: "@ + short_bind_text(selector),
        Action::PressKey { key } => "PressKey: "@ + key_name(key),
        Action::ClearAndType { selector, .. } => "ClearAndType: "@ + short_bind_text(selector),
        Action::NavigateHref { base, href } => "NavHref: "@ + short_bind_text(base) + "+"@ + short_bind_text(href),
        Action::ScrollDown { scroll } => "ScrollDown: "@ + signed_dec_string(scroll.value as int),
        Action::ScrollUp { scroll } => "ScrollUp: "@ + signed_dec_string(scroll.value as int),
    }
}

fn labelled(label: &str, value: String) -> (r: String)
    ensures
        r@ == label@ + value@,
{
    let mut r = String::from_str(label);
    r.append(value.as_str());
    r
}

/// The one-line description of an action in the workflow list.
pub fn action_short_desc(a: &Action) -> (r: String)
    requires
        action_short_ok(*a),
    ensures
        r@ == action_short_text(*a),
{
    match a {
        Action::Click { selector_string } => labelled("Click: ", bv_short(selector_string)),
        Action::Navigate { url } => labelled("Navigate: ", bv_short(url)),
        Action::WaitFor { selector_string, .. } => labelled("WaitFor: ", bv_short(selector_string)),
        Action::Wait { time_ms } => {
            let mut r = labelled("Wait: ", u64_to_string(time_ms.value));
            r.append("ms");
            r
        },
        Action::ScrollAll => String::from_str("ScrollAll"),
        Action::ClickByText { text, .. } => labelled("ClickByText: ", bv_short(text)),
        Action::GetHTML { selector_string, .. } => labelled("GetHTML: ", bv_short(selector_string)),
        Action::DismissPermission => String::from_str("DismissPermission"),
        Action::SwitchToDefaultContent => String::from_str("SwitchToDefault"),
        Action::SwitchToFrame { selector_string } => labelled("SwitchFrame: ", bv_short(selector_string)),
        Action::Refresh => String::from_str("Refresh"),
        Action::Forward => String::from_str("Forward"),
        Action::Backward => String::from_str("Backward"),
        Action::NewTab { url } => labelled("NewTab: ", bv_short(url)),
        Action::SwitchTab { index } => labelled("SwitchTab: ", u64_to_string(index.value)),
        Action::CloseTab => String::from_str("CloseTab"),
        Action::SwitchToLastTab => String::from_str("SwitchToLastTab"),
        Action::Type { selector, .. } => labelled("Type: ", bv_short(selector)),
        Action::PressKey { key } => labelled("PressKey: ", String::from_str(key_action_name(key))),
        Action::ClearAndType { selector, .. } => labelled("ClearAndType: ", bv_short(selector)),
        Action::NavigateHref { base, href } => {
            let mut r = labelled("NavHref: ", bv_short(base));
            r.append("+");
            let h = bv_short(href);
            r.append(h.as_str());
            r
        },
        Action::ScrollDown { scroll } => labelled("ScrollDown: ", i64_to_string(scroll.value)),
        Action::ScrollUp { scroll } => labelled("ScrollUp: ", i64_to_string(scroll.value)),
    }
}

/// The one-line description of an extraction: its kind and the field it fills.
pub open spec fn extraction_short_text(e: Extraction) -> Seq<char> {
    match e {
        Extraction::Text { field_name, .. } => "Text → "@ + short_bind_text(field_name),
        Extraction::Count { field_name, .. } => "Count → "@ + short_bind_text(field_name),
        Extraction::Attribute { field_name, .. } => "Attr → "@ + short_bind_text(field_name),
        Extraction::Exists { field_name, .. } => "Exists → "@ + short_bind_text(field_name),
        Extraction::MultipleText { field_name, .. } => "MultiText → "@ + short_bind_text(field_name),
    }
}

/// The one-line description of an extraction in the workflow list.
pub fn extraction_short_desc(e: &Extraction) -> (r: String)
    requires
        short_ok(e.field_param()),
    ensures
        r@ == extraction_short_text(*e),
{
    match e {
        Extraction::Text { field_name, .. } => labelled("Text → ", bv_short(field_name)),
        Extraction::Count { field_name, .. } => labelled("Count → ", bv_short(field_name)),
        Extraction::Attribute { field_name, .. } => labelled("Attr → ", bv_short(field_name)),
        Extraction::Exists { field_name, .. } => labelled("Exists → ", bv_short(field_name)),
        Extraction::MultipleText { field_name, .. } => labelled("MultiText → ", bv_short(field_name)),
    }
}

/// Whether a handler's one-line description can be made.
pub open spec fn handler_short_ok(h: Handler) -> bool {
    match h {
        Handler::Item(Step::Act(a)) => action_short_ok(a),
        Handler::Item(Step::Extract(e)) => short_ok(e.field_param()),
        _ => true,
    }
}

/// The one-line description of a handler in the workflow list: that of its
/// action or extraction, the number of a container's steps, or the name of
/// a sub-sequence (`SubSequence` when it has none).
pub open spec fn handler_short_text(h: Handler) -> Seq<char> {
    match h {
        Handler::Item(Step::Act(a)) => action_short_text(a),
        Handler::Item(Step::Extract(e)) => extraction_short_text(e),
        Handler::Container { steps, .. } => dec_string(steps@.len()) + " steps"@,
        Handler::SubSequence(s) => if s.sequence_name@.len() == 0 {
            "SubSequence"@
        } else {
            s.sequence_name@
        },
    }
}

/// The one-line description of a handler in the workflow list.
pub fn handler_description(h: &Handler) -> (r: String)
    requires
        handler_short_ok(*h),
    ensures
        r@ == handler_short_text(*h),
{
    match h {
        Handler::Item(Step::Act(a)) => action_short_desc(a),
        Handler::Item(Step::Extract(e)) => extraction_short_desc(e),
        Handler::Container { steps, .. } => {
            let mut r = usize_to_string(steps.len());
            r.append(" steps");
            r
        },
        Handler::SubSequence(s) => {
            if s.sequence_name.as_str().is_empty() {
                String::from_str("SubSequence")
            } else {
                s.sequence_name.clone()
            }
        },
    }
}

/// The short type name of an action in the workflow list.
pub open spec fn action_type_text(a: Action) -> Seq<char> {
    match a {
        Action::Navigate { .. } => "Navigate"@,
        Action::NewTab { .. } => "NewTab"@,
        Action::Refresh => "Refresh"@,
        Action::Backward => "Back"@,
        Action::Forward => "Forward"@,
        Action::Click { .. } => "Click"@,
        Action::ClickByText { .. } => "ClickText"@,
        Action::WaitFor { .. } => "WaitFor"@,
        Action::ScrollAll => "ScrollAll"@,
        Action::Type { .. } => "Type"@,
        Action::ClearAndType { .. } => "Clear&Type"@,
        Action::SwitchToFrame { .. } => "Frame"@,
        Action::SwitchToDefaultContent => "DefFrame"@,
        Action::GetHTML { .. } => "GetHTML"@,
        Action::DismissPermission => "Dismiss"@,
        Action::CloseTab => "CloseTab"@,
        Action::SwitchTab { .. } => "SwitchTab"@,
        Action::SwitchToLastTab => "LastTab"@,
        Action::PressKey { .. } => "PressKey"@,
        Action::NavigateHref { .. } => "Navigate Href"@,
        Action::ScrollDown { .. } => "Scroll Down"@,
        Action::ScrollUp { .. } => "Scroll Up"@,
        Action::Wait { .. } => "Wait"@,
    }
}

/// The short type name of an action.
pub fn action_type_name(a: &Action) -> (r: &'static str)
    ensures
        r@ == action_type_text(*a),
{
    match a {
        Action::Navigate { .. } => "Navigate",
        Action::NewTab { .. } => "NewTab",
        Action::Refresh => "Refresh",
        Action::Backward => "Back",
        Action::Forward => "Forward",
        Action::Click { .. } => "Click",
        Action::ClickByText { .. } => "ClickText",
        Action::WaitFor { .. } => "WaitFor",
        Action::ScrollAll => "ScrollAll",
        Action::Type { .. } => "Type",
        Action::ClearAndType { .. } => "Clear&Type",
        Action::SwitchToFrame { .. } => "Frame",
        Action::SwitchToDefaultContent => "DefFrame",
        Action::GetHTML { .. } => "GetHTML",
        Action::DismissPermission => "Dismiss",
        Action::CloseTab => "CloseTab",
        Action::SwitchTab { .. } => "SwitchTab",
        Action::SwitchToLastTab => "LastTab",
        Action::PressKey { .. } => "PressKey",
        Action::NavigateHref { .. } => "Navigate Href",
        Action::ScrollDown { .. } => "Scroll Down",
        Action::ScrollUp { .. } => "Scroll Up",
        Action::Wait { .. } => "Wait",
    }
}

/// The short type name of a handler.
pub open spec fn handler_type_text(h: Handler) -> Seq<char> {
    match h {
        Handler::Item(Step::Act(a)) => action_type_text(a),
        Handler::Item(Step::Extract(_)) => "Extract"@,
        Handler::Container { .. } => "Container"@,
        Handler::SubSequence(_) => "SubSeq"@,
    }
}

/// The short type name of a handler.
pub fn handler_type_name(h: &Handler) -> (r: &'static str)
    ensures
        r@ == handler_type_text(*h),
{
    match h {
        Handler::Item(Step::Act(a)) => action_type_name(a),
        Handler::Item(Step::Extract(_)) => "Extract",
        Handler::Container { .. } => "Container",
        Handler::SubSequence(_) => "SubSeq",
    }
}

/// The icon of an action in the workflow list.
pub open spec fn action_icon_text(a: Action) -> Seq<char> {
    match a {
        Action::Navigate { .. } => "🔗"@,
        Action::NewTab { .. } => "➕"@,
        Action::Refresh => "🔄"@,
        Action::Backward => "◀️"@,
        Action::Forward => "▶️"@,
        Action::Click { .. } => "👆"@,
        Action::ClickByText { .. } => "🔤"@,
        Action::WaitFor { .. } => "⏳"@,
        Action::ScrollAll => "📜"@,
        Action::Type { .. } => "⌨️"@,
        Action::ClearAndType { .. } => "🔁"@,
        Action::SwitchToFrame { .. } => "🖼️"@,
        Action::SwitchToDefaultContent => "🏠"@,
        _ => "⚡"@,
    }
}

/// The icon of an action in the workflow list.
pub fn action_icon(a: &Action) -> (r: &'static str)
    ensures
        r@ == action_icon_text(*a),
{
    match a {
        Action::Navigate { .. } => "🔗",
        Action::NewTab { .. } => "➕",
        Action::Refresh => "🔄",
        Action::Backward => "◀️",
        Action::Forward => "▶️",
        Action::Click { .. } => "👆",
        Action::ClickByText { .. } => "🔤",
        Action::WaitFor { .. } => "⏳",
        Action::ScrollAll => "📜",
        Action::Type { .. } => "⌨️",
        Action::ClearAndType { .. } => "🔁",
        Action::SwitchToFrame { .. } => "🖼️",
        Action::SwitchToDefaultContent => "🏠",
        _ => "⚡",
    }
}

/// The icon of a handler in the workflow list.
pub open spec fn handler_icon_text(h: Handler) -> Seq<char> {
    match h {
        Handler::Item(Step::Act(a)) => action_icon_text(a),
        Handler::Item(Step::Extract(_)) => "📊"@,
        Handler::Container { .. } => "📦"@,
        Handler::SubSequence(_) => "🔄"@,
    }
}

/// The icon of a handler in the workflow list.
pub fn handler_icon(h: &Handler) -> (r: &'static str)
    ensures
        r@ == handler_icon_text(*h),
{
    match h {
        Handler::Item(Step::Act(a)) => action_icon(a),
        Handler::Item(Step::Extract(_)) => "📊",
        Handler::Container { .. } => "📦",
        Handler::SubSequence(_) => "🔄",
    }
}

} // verus!
