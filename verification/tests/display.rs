use crude::display::{
    action_icon, action_short_desc, action_summary, action_type_name, bind_display, bind_display_i64,
    bind_display_u64, bv_short, extract_card_info, extraction_short_desc, extraction_summary, handler_description,
    handler_icon, handler_meta, handler_type_name, truncate_text,
};
use crude::map::StrMap;
use crude::workflow::{Action, BindValue, Extraction, Handler, KeyAction, Sequence, Step};

fn s(x: &str) -> String {
    x.to_string()
}

fn lit(x: &str) -> BindValue<String> {
    BindValue::new(s(x))
}

#[test]
fn bound_parameters_show_their_key() {
    assert_eq!(bind_display(&lit("a.b")), "a.b");
    assert_eq!(bind_display(&BindValue::with_binding(s("x"), "sel")), "${sel}");
    assert_eq!(bind_display_u64(&BindValue::new(1500)), "1500");
    assert_eq!(bind_display_u64(&BindValue::with_binding(0, "ms")), "${ms}");
    assert_eq!(bind_display_i64(&BindValue::new(-20)), "-20");
    assert_eq!(bind_display_i64(&BindValue::with_binding(0, "px")), "{{px}}");
}

#[test]
fn action_cards() {
    let (name, sel, details) = action_summary(&Action::WaitFor { selector_string: lit("#x"), time_ms: BindValue::new(300) });
    assert_eq!(name, "WaitFor");
    assert_eq!(sel, Some(s("#x")));
    assert_eq!(details, vec![("Timeout", s("300"))]);
    let (name, sel, details) = action_summary(&Action::PressKey { key: KeyAction::ArrowDown });
    assert_eq!(name, "PressKey");
    assert_eq!(sel, None);
    assert_eq!(details, vec![("Key", s("ArrowDown"))]);
    let (_, _, details) = action_summary(&Action::NavigateHref { base: lit("b"), href: BindValue::with_binding(s(""), "h") });
    assert_eq!(details, vec![("Base", s("b")), ("Href", s("${h}"))]);
}

#[test]
fn extraction_cards() {
    let e = Extraction::Attribute { selector_string: lit("a"), field_name: lit("link"), attr_str: lit("href") };
    let (name, sel, details) = extraction_summary(&e);
    assert_eq!(name, "Attribute");
    assert_eq!(sel, Some(s("a")));
    assert_eq!(details, vec![("Field", s("link")), ("Attr", s("href"))]);
}

#[test]
fn card_info_per_handler() {
    let steps = vec![
        Step::Extract(Extraction::Text { selector_string: lit("a"), field_name: lit("t") }),
        Step::Act(Action::Refresh),
    ];
    let c = extract_card_info(&Handler::Container { selector: lit("li"), steps, dedup: true });
    assert_eq!(c.description, "2 steps (1 extractions)");
    assert_eq!(c.selector, Some(s("li")));
    assert_eq!(c.details, vec![(s("Dedup"), s("true"))]);
    let mut td = StrMap::new();
    td.insert(s("a"), s("1"));
    td.insert(s("b"), s("2"));
    let sub = Sequence { sequence_name: s("detail"), step_sequence: vec![], target_data: td, metadata: vec![] };
    let c = extract_card_info(&Handler::SubSequence(sub));
    assert_eq!(c.description, "detail");
    assert_eq!(c.selector, None);
    assert_eq!(c.details, vec![(s("Steps"), s("0")), (s("Fields"), s("a, b"))]);
    let c = extract_card_info(&Handler::Item(Step::Act(Action::Click { selector_string: lit("#b") })));
    assert_eq!(c.description, "Click");
    assert_eq!(c.selector, Some(s("#b")));
    assert_eq!(handler_meta(&Handler::Item(Step::Act(Action::Refresh))), ("⚡", "Action"));
}

#[test]
fn truncation_by_bytes() {
    assert_eq!(truncate_text("short", 10), "short");
    assert_eq!(truncate_text("abcdefghij", 10), "abcdefghij");
    assert_eq!(truncate_text("abcdefghijk", 10), "abcdefg...");
    assert_eq!(truncate_text("abcd", 2), "...");
    assert_eq!(truncate_text("가나다라", 9), "가나...");
}

#[test]
fn short_parameters_in_the_list() {
    assert_eq!(bv_short(&BindValue::with_binding(s("x"), "k")), "${k}");
    let long = "0123456789".repeat(4);
    assert_eq!(bv_short(&lit(&long)), format!("{}...", &long[..27]));
    assert_eq!(bv_short(&lit("exactly thirty characters long")), "exactly thirty characters long");
}

#[test]
fn one_line_descriptions() {
    assert_eq!(action_short_desc(&Action::Click { selector_string: lit("#go") }), "Click: #go");
    assert_eq!(action_short_desc(&Action::Wait { time_ms: BindValue::with_binding(250, "ms") }), "Wait: 250ms");
    assert_eq!(action_short_desc(&Action::ScrollUp { scroll: BindValue::new(-5) }), "ScrollUp: -5");
    assert_eq!(action_short_desc(&Action::PressKey { key: KeyAction::Space }), "PressKey: Space");
    assert_eq!(
        action_short_desc(&Action::NavigateHref { base: lit("b"), href: BindValue::with_binding(s(""), "h") }),
        "NavHref: b+${h}"
    );
    assert_eq!(action_short_desc(&Action::SwitchToDefaultContent), "SwitchToDefault");
    let e = Extraction::MultipleText { selector_string: lit("p"), field_name: lit("body") };
    assert_eq!(extraction_short_desc(&e), "MultiText → body");
    assert_eq!(handler_description(&Handler::Item(Step::Extract(e))), "MultiText → body");
    let c = Handler::Container { selector: lit("li"), steps: vec![Step::Act(Action::Refresh)], dedup: false };
    assert_eq!(handler_description(&c), "1 steps");
    let unnamed = Sequence { sequence_name: s(""), step_sequence: vec![], target_data: StrMap::new(), metadata: vec![] };
    assert_eq!(handler_description(&Handler::SubSequence(unnamed)), "SubSequence");
}

#[test]
fn type_names_and_icons() {
    assert_eq!(action_type_name(&Action::Backward), "Back");
    assert_eq!(action_type_name(&Action::ClearAndType { selector: lit(""), text: lit("") }), "Clear&Type");
    assert_eq!(handler_type_name(&Handler::Item(Step::Extract(Extraction::Count { selector_string: lit(""), field_name: lit("") }))), "Extract");
    assert_eq!(action_icon(&Action::CloseTab), "⚡");
    assert_eq!(action_icon(&Action::ScrollAll), "📜");
    assert_eq!(handler_icon(&Handler::Container { selector: lit(""), steps: vec![], dedup: false }), "📦");
}
