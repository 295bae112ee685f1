use crude::keys::{contains_str, extract_binding_keys_from_sequence, insert_sorted, mapping_key_of, sorted_keys, str_lt};
use crude::map::StrMap;
use crude::test_input::{TestInputMsg, TestInputState};
use crude::workflow::{Action, BindValue, Extraction, Handler, Sequence, Step};

fn s(x: &str) -> String {
    x.to_string()
}

fn bound(key: &str) -> BindValue<String> {
    BindValue::with_binding(s("default"), key)
}

fn seq(name: &str, handlers: Vec<Handler>, metadata: Vec<String>) -> Sequence {
    Sequence { sequence_name: s(name), step_sequence: handlers, target_data: StrMap::new(), metadata }
}

fn sample() -> Sequence {
    let sub = seq(
        "detail",
        vec![
            Handler::Item(Step::Act(Action::Navigate { url: bound("link") })),
            Handler::Item(Step::Act(Action::Type { selector: bound("box"), text: bound("query") })),
        ],
        vec![s("mapping:link:href"), s("note: not a mapping")],
    );
    seq(
        "main",
        vec![
            Handler::Item(Step::Act(Action::Navigate { url: bound("start_url") })),
            Handler::Item(Step::Act(Action::Wait { time_ms: BindValue::with_binding(1, "delay") })),
            Handler::Item(Step::Act(Action::Click { selector_string: BindValue::with_binding(s("x"), "") })),
            Handler::Container {
                selector: bound("row_sel"),
                steps: vec![
                    Step::Extract(Extraction::Text { selector_string: bound("name_sel"), field_name: BindValue::new(s("name")) }),
                    Step::Act(Action::Click { selector_string: bound("row_click") }),
                ],
                dedup: false,
            },
            Handler::SubSequence(sub),
            Handler::Item(Step::Act(Action::Navigate { url: bound("start_url") })),
        ],
        vec![],
    )
}

#[test]
fn binding_keys_are_sorted_and_distinct() {
    let keys = extract_binding_keys_from_sequence(&sample());
    assert_eq!(
        keys,
        vec![s("box"), s("delay"), s("link"), s("name_sel"), s("query"), s("row_click"), s("row_sel"), s("start_url")]
    );
}

#[test]
fn test_inputs_leave_out_mapped_keys() {
    let mut st = TestInputState::new();
    assert!(!st.has_required_inputs());
    st.parse_from_sequence(&sample());
    assert_eq!(
        st.binding_keys,
        vec![s("box"), s("delay"), s("name_sel"), s("query"), s("row_click"), s("row_sel"), s("start_url")]
    );
    assert!(st.has_required_inputs());
    assert_eq!(st.test_values.len(), 7);
    assert_eq!(st.filled_count(), 0);
    assert!(!st.all_filled());
}

#[test]
fn test_values_survive_reparse_for_kept_keys() {
    let mut st = TestInputState::new();
    st.parse_from_sequence(&sample());
    st.update(TestInputMsg::ValueChanged(s("start_url"), s("https://x")));
    st.update(TestInputMsg::ValueChanged(s("box"), s("#q")));
    assert_eq!(st.filled_count(), 2);
    let fewer = seq("main", vec![Handler::Item(Step::Act(Action::Navigate { url: bound("start_url") }))], vec![]);
    st.parse_from_sequence(&fewer);
    assert_eq!(st.binding_keys, vec![s("start_url")]);
    assert_eq!(st.test_values.get("start_url").map(|v| v.as_str()), Some("https://x"));
    assert!(st.test_values.get("box").is_none());
    assert!(st.all_filled());
    let data = st.get_target_data();
    assert_eq!(data.len(), 1);
    assert_eq!(data.get("start_url").map(|v| v.as_str()), Some("https://x"));
}

#[test]
fn clear_all_empties_values_and_keeps_keys() {
    let mut st = TestInputState::new();
    st.parse_from_workflow(&sample().step_sequence);
    st.update(TestInputMsg::ValueChanged(s("delay"), s("5")));
    st.update(TestInputMsg::ClearAll);
    assert_eq!(st.filled_count(), 0);
    assert_eq!(st.test_values.len(), 7);
    assert_eq!(st.test_values.get("delay").map(|v| v.as_str()), Some(""));
    st.update(TestInputMsg::RefreshKeys);
    assert_eq!(st.binding_keys.len(), 7);
}

#[test]
fn all_filled_needs_every_value() {
    let mut st = TestInputState::new();
    let one = vec![Handler::Item(Step::Act(Action::Navigate { url: bound("u") }))];
    st.parse_from_workflow(&one);
    assert!(!st.all_filled());
    st.update(TestInputMsg::ValueChanged(s("u"), s("v")));
    assert!(st.all_filled());
    assert_eq!(st.filled_count(), 1);
    let none: Vec<Handler> = vec![];
    st.parse_from_workflow(&none);
    assert!(st.all_filled());
    assert!(!st.has_required_inputs());
}

#[test]
fn mapping_lines() {
    assert_eq!(mapping_key_of("mapping:link:href"), Some(s("link")));
    assert_eq!(mapping_key_of("mapping:solo"), Some(s("solo")));
    assert_eq!(mapping_key_of("mapping::x"), Some(s("")));
    assert_eq!(mapping_key_of("map:link:href"), None);
}

#[test]
fn string_order_and_sorted_insert() {
    assert!(str_lt("a", "b"));
    assert!(str_lt("ab", "abc"));
    assert!(!str_lt("abc", "ab"));
    assert!(!str_lt("x", "x"));
    assert!(str_lt("Z", "a"));
    let mut v = vec![s("b"), s("d")];
    insert_sorted(&mut v, s("c"));
    insert_sorted(&mut v, s("a"));
    insert_sorted(&mut v, s("d"));
    assert_eq!(v, vec![s("a"), s("b"), s("c"), s("d")]);
    assert!(contains_str(&v, "c"));
    assert!(!contains_str(&v, "e"));
    let r = sorted_keys(&vec![s("z"), s("a"), s("z"), s("m")], &vec![s("m")]);
    assert_eq!(r, vec![s("a"), s("z")]);
}
