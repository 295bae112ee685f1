use crude::editor::{
    action_variant_name, default_action_for_variant, default_extraction_for_variant, extraction_variant_name,
    key_action_name, mapping_parts, metadata_with_mappings, parse_key_action, parse_mappings_from_metadata,
    ContainerField, EditorMsg, EditorState, FieldId, InputMapping,
};
use crude::map::StrMap;
use crude::workflow::{Action, BindValue, Extraction, Handler, KeyAction, Sequence, Step};

fn s(x: &str) -> String {
    x.to_string()
}

fn sub(meta: Vec<String>) -> Handler {
    Handler::SubSequence(Sequence {
        sequence_name: s("detail"),
        step_sequence: vec![Handler::Item(Step::Act(Action::Navigate { url: BindValue::with_binding(s(""), "link") }))],
        target_data: StrMap::new(),
        metadata: meta,
    })
}

fn action_of(st: &EditorState) -> &Action {
    match &st.handler {
        Handler::Item(Step::Act(a)) => a,
        _ => panic!("not an action"),
    }
}

#[test]
fn default_state_is_closed_click() {
    let st = EditorState::default();
    assert!(!st.is_open);
    assert_eq!(action_of(&st), &Action::Click { selector_string: BindValue::new(s("")) });
    assert_eq!(st.kind_name(), "Action");
}

#[test]
fn variants_by_name() {
    assert_eq!(default_action_for_variant("Wait"), Action::Wait { time_ms: BindValue::new(1000) });
    assert_eq!(
        default_action_for_variant("WaitFor"),
        Action::WaitFor { selector_string: BindValue::new(s("")), time_ms: BindValue::new(500) }
    );
    assert_eq!(default_action_for_variant("no such"), Action::Click { selector_string: BindValue::new(s("")) });
    assert_eq!(action_variant_name(&default_action_for_variant("GetHTML")), "GetHTML");
    assert_eq!(action_variant_name(&Action::ScrollAll), "ScrollAll");
    let e = default_extraction_for_variant("Attribute");
    assert_eq!(extraction_variant_name(&e), "Attribute");
    assert_eq!(extraction_variant_name(&default_extraction_for_variant("bogus")), "Text");
}

#[test]
fn key_names_round_trip() {
    for k in [KeyAction::Enter, KeyAction::Tab, KeyAction::Escape, KeyAction::Space, KeyAction::Backspace,
        KeyAction::ArrowUp, KeyAction::ArrowDown, KeyAction::ArrowLeft, KeyAction::ArrowRight] {
        assert_eq!(parse_key_action(key_action_name(&k)), k);
    }
    assert_eq!(parse_key_action("F13"), KeyAction::Enter);
}

#[test]
fn kind_change_replaces_handler() {
    let mut st = EditorState::default();
    st.update(EditorMsg::ChangeHandlerKind(s("Container")));
    assert!(st.is_open);
    assert_eq!(st.kind_name(), "Container");
    st.update(EditorMsg::ChangeHandlerKind(s("Extraction")));
    assert_eq!(st.kind_name(), "Extraction");
    st.update(EditorMsg::ChangeHandlerKind(s("SubSequence")));
    assert_eq!(st.kind_name(), "SubSequence");
    st.update(EditorMsg::ChangeHandlerKind(s("Nonsense")));
    assert_eq!(st.kind_name(), "SubSequence");
}

#[test]
fn bound_text_parameter_edits() {
    let mut st = EditorState::default();
    st.update(EditorMsg::ActionVariantChanged(s("Navigate")));
    st.update(EditorMsg::BindStrValueChanged(FieldId::Url, s("https://a")));
    st.update(EditorMsg::BindStrToggle(FieldId::Url, true));
    assert_eq!(action_of(&st), &Action::Navigate { url: BindValue { value: s("https://a"), binding: Some(s("")) } });
    st.update(EditorMsg::BindStrKeyChanged(FieldId::Url, s("start")));
    assert_eq!(action_of(&st), &Action::Navigate { url: BindValue::with_binding(s("https://a"), "start") });
    st.update(EditorMsg::BindStrToggle(FieldId::Url, true));
    assert_eq!(action_of(&st), &Action::Navigate { url: BindValue::with_binding(s("https://a"), "start") });
    st.update(EditorMsg::BindStrKeyChanged(FieldId::Url, s("")));
    assert_eq!(action_of(&st), &Action::Navigate { url: BindValue::new(s("https://a")) });
    st.update(EditorMsg::BindStrValueChanged(FieldId::Selector, s("ignored")));
    assert_eq!(action_of(&st), &Action::Navigate { url: BindValue::new(s("https://a")) });
}

#[test]
fn numeric_parameters_keep_value_on_bad_text() {
    let mut st = EditorState::default();
    st.update(EditorMsg::ActionVariantChanged(s("Wait")));
    st.update(EditorMsg::BindU64ValueChanged(FieldId::TimeMs, s("250")));
    assert_eq!(action_of(&st), &Action::Wait { time_ms: BindValue::new(250) });
    st.update(EditorMsg::BindU64ValueChanged(FieldId::TimeMs, s("soon")));
    assert_eq!(action_of(&st), &Action::Wait { time_ms: BindValue::new(250) });
    st.update(EditorMsg::ActionVariantChanged(s("ScrollUp")));
    st.update(EditorMsg::BindI64ValueChanged(FieldId::Scroll, s("-30")));
    match action_of(&st) {
        Action::ScrollUp { scroll } => assert_eq!(scroll.value, -30),
        other => panic!("unexpected {:?}", other),
    }
    st.update(EditorMsg::BindI64Toggle(FieldId::Scroll, true));
    st.update(EditorMsg::BindI64KeyChanged(FieldId::Scroll, s("px")));
    match action_of(&st) {
        Action::ScrollUp { scroll } => assert_eq!(scroll.binding, Some(s("px"))),
        other => panic!("unexpected {:?}", other),
    }
}

#[test]
fn press_key_choice() {
    let mut st = EditorState::default();
    st.update(EditorMsg::ActionVariantChanged(s("PressKey")));
    st.update(EditorMsg::KeyActionChanged(s("Escape")));
    assert_eq!(action_of(&st), &Action::PressKey { key: KeyAction::Escape });
}

#[test]
fn container_steps_edits() {
    let mut st = EditorState::default();
    st.open_new_container();
    st.update(EditorMsg::ContainerDedupToggled(true));
    st.update(EditorMsg::AddContainerStep);
    st.update(EditorMsg::AddContainerStep);
    st.update(EditorMsg::ContainerStepExtractionChanged(1, s("Count")));
    st.update(EditorMsg::ContainerStepBindStr(1, FieldId::FieldName, s("n")));
    st.update(EditorMsg::ContainerStepBindStrToggle(0, FieldId::Selector, true));
    st.update(EditorMsg::ContainerStepBindStrKey(0, FieldId::Selector, s("sel")));
    st.update(EditorMsg::RemoveContainerStep(7));
    st.update(EditorMsg::BindStrValueChanged(FieldId::Selector, s("li")));
    match &st.handler {
        Handler::Container { selector, steps, dedup } => {
            assert!(*dedup);
            assert_eq!(selector.value, "li");
            assert_eq!(steps.len(), 2);
            match &steps[0] {
                Step::Extract(Extraction::Text { selector_string, .. }) => {
                    assert_eq!(selector_string.binding, Some(s("sel")))
                },
                _ => panic!("step 0"),
            }
            match &steps[1] {
                Step::Extract(Extraction::Count { field_name, .. }) => assert_eq!(field_name.value, "n"),
                _ => panic!("step 1"),
            }
        },
        _ => panic!("not a container"),
    }
    st.update(EditorMsg::RemoveContainerStep(0));
    match &st.handler {
        Handler::Container { steps, .. } => assert_eq!(steps.len(), 1),
        _ => panic!("not a container"),
    }
}

#[test]
fn opening_sub_sequence_reads_mappings_and_keys() {
    let mut st = EditorState::default();
    st.set_container_context(vec![ContainerField { field_name: s("href"), extraction_type: s("Attribute") }]);
    st.open(sub(vec![s("mapping:link:href"), s("other"), s("mapping:bad")]));
    assert!(st.is_open);
    assert_eq!(st.input_mappings.len(), 1);
    assert_eq!(st.input_mappings[0].binding_key, "link");
    assert_eq!(st.input_mappings[0].source_field, Some(s("href")));
    assert_eq!(st.subsequence_binding_keys, vec![s("link")]);
    assert_eq!(st.container_fields.len(), 1);
}

#[test]
fn mapping_edits_and_save_rewrite_metadata() {
    let mut st = EditorState::default();
    st.open(sub(vec![s("keep me"), s("mapping:old:x")]));
    st.update(EditorMsg::AddInputMapping);
    st.update(EditorMsg::MappingBindingKeyChanged(1, s("page")));
    st.update(EditorMsg::MappingSourceChanged(1, s("_index")));
    st.update(EditorMsg::AddInputMapping);
    st.update(EditorMsg::MappingBindingKeyChanged(2, s("(none)")));
    st.update(EditorMsg::MappingSourceChanged(2, s("title")));
    st.update(EditorMsg::AddInputMapping);
    st.update(EditorMsg::MappingBindingKeyChanged(3, s("q")));
    st.update(EditorMsg::MappingSourceChanged(3, s("(none)")));
    st.update(EditorMsg::RemoveInputMapping(0));
    st.update(EditorMsg::RemoveInputMapping(99));
    assert_eq!(st.input_mappings.len(), 3);
    st.update(EditorMsg::Save);
    assert!(!st.is_open);
    assert!(st.input_mappings.is_empty());
    match &st.handler {
        Handler::SubSequence(seq) => assert_eq!(seq.metadata, vec![s("keep me"), s("mapping:page:_index")]),
        _ => panic!("not a sub-sequence"),
    }
}

#[test]
fn close_keeps_handler() {
    let mut st = EditorState::default();
    st.open_new_extraction();
    st.update(EditorMsg::SubSeqJsonPathChanged(s("x")));
    st.update(EditorMsg::Close);
    assert!(!st.is_open);
    assert_eq!(st.kind_name(), "Extraction");
}

#[test]
fn rename_sub_sequence() {
    let mut st = EditorState::default();
    st.open(sub(vec![]));
    st.update(EditorMsg::SubSeqNameChanged(s("renamed")));
    st.update(EditorMsg::SubSeqSelectFromList(s("picked")));
    match &st.handler {
        Handler::SubSequence(seq) => assert_eq!(seq.sequence_name, "picked"),
        _ => panic!("not a sub-sequence"),
    }
}

#[test]
fn mapping_lines_parse_and_write_back() {
    assert_eq!(mapping_parts("mapping:k:a:b"), Some((s("k"), s("a:b"))));
    assert_eq!(mapping_parts("mapping:k"), None);
    assert_eq!(mapping_parts("other:k:v"), None);
    let meta = vec![s("a"), s("mapping:x:y"), s("b")];
    let ms = parse_mappings_from_metadata(&meta);
    assert_eq!(ms.len(), 1);
    let back = metadata_with_mappings(&meta, &ms);
    assert_eq!(back, vec![s("a"), s("b"), s("mapping:x:y")]);
    let none = vec![InputMapping::empty(), InputMapping { binding_key: s("k"), source_field: None }];
    assert_eq!(metadata_with_mappings(&meta, &none), vec![s("a"), s("b")]);
}

#[test]
fn writing_mappings_keeps_plain_lines_for_any_key() {
    let meta = vec![s("note"), s("mapping:old:x"), s("other")];
    let ms = vec![InputMapping { binding_key: s("a:b"), source_field: Some(s("f")) }];
    let once = metadata_with_mappings(&meta, &ms);
    assert_eq!(once, vec![s("note"), s("other"), s("mapping:a:b:f")]);
    let twice = metadata_with_mappings(&once, &ms);
    assert_eq!(twice, once);
    let read = parse_mappings_from_metadata(&once);
    assert_eq!(read.len(), 1);
    assert_eq!(read[0].binding_key, "a");
}

#[test]
fn applied_mappings_parse_back_in_order() {
    let mut st = EditorState::default();
    st.open(sub(vec![s("note"), s("mapping:stale:y")]));
    st.input_mappings = vec![
        InputMapping { binding_key: s("page"), source_field: Some(s("a:b")) },
        InputMapping { binding_key: s(""), source_field: Some(s("skip")) },
        InputMapping { binding_key: s("q"), source_field: None },
        InputMapping { binding_key: s("link"), source_field: Some(s("href")) },
    ];
    st.apply_mappings_to_handler();
    let meta = match &st.handler {
        Handler::SubSequence(seq) => seq.metadata.clone(),
        _ => panic!("not a sub-sequence"),
    };
    let back = parse_mappings_from_metadata(&meta);
    assert_eq!(back.len(), 2);
    assert_eq!(back[0].binding_key, "page");
    assert_eq!(back[0].source_field, Some(s("a:b")));
    assert_eq!(back[1].binding_key, "link");
    assert_eq!(back[1].source_field, Some(s("href")));
}
