use crude::editor::{EditorMsg, FieldId};
use crude::map::StrMap;
use crude::palette::{palette_kind_for, PaletteKind};
use crude::sequence_file::SequenceFile;
use crude::studio::{
    build_sequence, find_previous_container, find_previous_container_fields, first_container, has_any_container,
    is_below_first_container, unique_name, BrowserType, RunnerReply, SequenceType, Workspace,
};
use crude::test_input::TestInputMsg;
use crude::workflow::{Action, BindValue, Extraction, Handler, Sequence, Step};

fn s(x: &str) -> String {
    x.to_string()
}

fn nav(url: &str) -> Handler {
    Handler::Item(Step::Act(Action::Navigate { url: BindValue::new(s(url)) }))
}

fn container(fields: &[&str]) -> Handler {
    let steps = fields
        .iter()
        .map(|f| Step::Extract(Extraction::Text { selector_string: BindValue::new(s("span")), field_name: BindValue::new(s(f)) }))
        .collect();
    Handler::Container { selector: BindValue::new(s("li")), steps, dedup: false }
}

fn kinds(w: &Workspace) -> Vec<PaletteKind> {
    w.workflow.iter().map(palette_kind_for).collect()
}

fn seq_of(name: &str, handlers: Vec<Handler>) -> Sequence {
    Sequence { sequence_name: s(name), step_sequence: handlers, target_data: StrMap::new(), metadata: vec![] }
}

#[test]
fn unique_names_number_from_one() {
    assert_eq!(unique_name("a", &vec![]), "a");
    assert_eq!(unique_name("a", &vec![s("a")]), "a_1");
    assert_eq!(unique_name("a", &vec![s("a"), s("a_1"), s("a_2")]), "a_3");
    assert_eq!(unique_name("a", &vec![s("a"), s("a_2")]), "a_1");
    let mut all = vec![s("x")];
    for i in 1..=100 {
        all.push(format!("x_{}", i));
    }
    assert_eq!(unique_name("x", &all), "x_101");
}

#[test]
fn labels_and_devices() {
    assert_eq!(SequenceType::Main.label(), "🏠 Main");
    assert_eq!(SequenceType::Sub.label(), "🔗 Sub");
    assert_eq!(BrowserType::Mobile.label(), "Mobile");
    assert_eq!(BrowserType::Mobile.device(), "mobile");
    assert_eq!(BrowserType::Desktop.device(), "desktop");
}

#[test]
fn built_sequence_is_plain_copy() {
    let hs = vec![nav("https://a")];
    let sq = build_sequence("n", &hs);
    assert_eq!(sq.sequence_name, "n");
    assert_eq!(sq.step_sequence.len(), 1);
    assert!(sq.target_data.is_empty());
    assert!(sq.metadata.is_empty());
}

#[test]
fn containers_before_a_position() {
    let w = vec![nav("a"), container(&["x"]), nav("b"), container(&["title", "", "price"]), nav("c")];
    assert_eq!(first_container(&w), Some(1));
    assert!(has_any_container(&w));
    assert!(!has_any_container(&vec![nav("a")]));
    assert!(is_below_first_container(&w, 2));
    assert!(!is_below_first_container(&w, 1));
    assert_eq!(find_previous_container(&w, 5), Some(3));
    assert_eq!(find_previous_container(&w, 3), Some(1));
    assert_eq!(find_previous_container(&w, 1), None);
    let f = find_previous_container_fields(&w, 5);
    let got: Vec<(String, String)> = f.into_iter().map(|c| (c.field_name, c.extraction_type)).collect();
    assert_eq!(got, vec![(s("_index"), s("Auto")), (s("title"), s("Text")), (s("price"), s("Text"))]);
    assert_eq!(find_previous_container_fields(&w, 0).len(), 1);
}

#[test]
fn new_workspace_defaults() {
    let w = Workspace::new();
    assert!(w.workflow.is_empty());
    assert_eq!(w.start_url, "https://www.google.com");
    assert_eq!(w.browser_type, BrowserType::Desktop);
    assert_eq!(w.current_sequence_type, SequenceType::Main);
    assert!(!w.browser_running && !w.sequence_running);
}

#[test]
fn drop_sub_sequence_needs_a_container_above() {
    let mut w = Workspace::new();
    w.drop_new(PaletteKind::SubSequence, 0);
    assert!(w.workflow.is_empty());
    assert_eq!(w.logs, vec![s("⚠️ SubSequence requires a Container to be present")]);
    w.drop_new(PaletteKind::Navigate, 0);
    w.drop_new(PaletteKind::Container, 1);
    w.drop_new(PaletteKind::SubSequence, 1);
    assert_eq!(w.logs.last().unwrap(), "⚠️ SubSequence can only be placed after a Container");
    w.drop_new(PaletteKind::SubSequence, 2);
    assert_eq!(kinds(&w), vec![PaletteKind::Navigate, PaletteKind::Container, PaletteKind::SubSequence]);
}

#[test]
fn move_and_delete_handlers() {
    let mut w = Workspace::new();
    w.drop_new(PaletteKind::Navigate, 0);
    w.drop_new(PaletteKind::Container, 1);
    w.drop_new(PaletteKind::Click, 2);
    w.drop_new(PaletteKind::SubSequence, 3);
    w.move_handler(0, 3);
    assert_eq!(
        kinds(&w),
        vec![PaletteKind::Container, PaletteKind::Click, PaletteKind::Navigate, PaletteKind::SubSequence]
    );
    w.move_handler(3, 0);
    assert_eq!(w.logs.last().unwrap(), "⚠️ SubSequence cannot be moved above a Container");
    assert_eq!(kinds(&w)[3], PaletteKind::SubSequence);
    w.move_handler(1, 1);
    assert_eq!(kinds(&w)[1], PaletteKind::Click);
    w.delete_handler(1);
    assert_eq!(kinds(&w), vec![PaletteKind::Container, PaletteKind::Navigate, PaletteKind::SubSequence]);
}

#[test]
fn save_as_then_rename_and_delete() {
    let mut w = Workspace::new();
    w.drop_new(PaletteKind::Navigate, 0);
    w.send_to_list();
    assert!(w.show_save_as);
    assert_eq!(w.save_as_name, "main_1");
    w.set_save_as_name(s("first"));
    w.confirm_save_as();
    assert!(!w.show_save_as);
    assert_eq!(w.current_sequence_name, Some(s("first")));
    assert_eq!(w.main_sequence_names, vec![s("first")]);
    assert_eq!(w.logs.last().unwrap(), "💾 Main saved as: first");
    w.rename_current(s("renamed"));
    assert_eq!(w.main_sequence_names, vec![s("renamed")]);
    assert!(w.main_sequences.contains_key("renamed"));
    assert!(!w.main_sequences.contains_key("first"));
    w.delete_current();
    assert!(w.main_sequence_names.is_empty());
    assert!(w.current_sequence_name.is_none());
    assert_eq!(w.logs.last().unwrap(), "🗑️ Deleted: renamed");
}

#[test]
fn empty_save_as_name_does_nothing() {
    let mut w = Workspace::new();
    w.send_to_list();
    w.set_save_as_name(s(""));
    w.confirm_save_as();
    assert!(w.show_save_as);
    assert!(w.main_sequence_names.is_empty());
    w.cancel_save_as();
    assert!(!w.show_save_as);
}

#[test]
fn change_type_renames_on_collision() {
    let mut w = Workspace::new();
    w.new_sequence(SequenceType::Sub);
    w.drop_new(PaletteKind::Refresh, 0);
    w.send_to_list();
    w.set_save_as_name(s("s"));
    w.confirm_save_as();
    w.new_sequence(SequenceType::Main);
    w.drop_new(PaletteKind::Wait, 0);
    w.send_to_list();
    w.set_save_as_name(s("s"));
    w.confirm_save_as();
    w.change_type(SequenceType::Sub);
    assert_eq!(w.current_sequence_type, SequenceType::Sub);
    assert_eq!(w.current_sequence_name, Some(s("s_1")));
    assert_eq!(w.sub_sequence_names, vec![s("s"), s("s_1")]);
    assert!(w.main_sequence_names.is_empty());
    let n = w.logs.len();
    assert_eq!(w.logs[n - 2], "📋 Renamed (collision): 's' → 's_1'");
    assert_eq!(w.logs[n - 1], "📋 Moved: 's_1' → Sub");
}

#[test]
fn select_sequence_loads_copy() {
    let mut w = Workspace::new();
    w.drop_new(PaletteKind::Navigate, 0);
    w.send_to_list();
    w.set_save_as_name(s("a"));
    w.confirm_save_as();
    w.new_sequence(SequenceType::Main);
    assert!(w.workflow.is_empty());
    w.select_sequence(s("a"));
    assert_eq!(kinds(&w), vec![PaletteKind::Navigate]);
    assert_eq!(w.current_sequence_name, Some(s("a")));
    w.select_sequence(s("missing"));
    assert_eq!(w.current_sequence_name, Some(s("a")));
}

#[test]
fn export_needs_a_workflow() {
    let mut w = Workspace::new();
    assert!(w.export_file().is_none());
    assert_eq!(w.logs.last().unwrap(), "❌ No sequence to export");
    w.drop_new(PaletteKind::Refresh, 0);
    let f = w.export_file().unwrap();
    assert!(f.get_main("untitled").is_some());
    assert!(f.sub_sequences.is_empty());
}

#[test]
fn collect_then_load_round_trip() {
    let mut w = Workspace::new();
    w.drop_new(PaletteKind::Navigate, 0);
    w.send_to_list();
    w.set_save_as_name(s("m"));
    w.confirm_save_as();
    let file = w.collect_file();
    assert!(file.get_main("m").is_some());
    let mut other = Workspace::new();
    other.load_file(file, s("/tmp/f.json"), false);
    assert_eq!(other.main_sequence_names, vec![s("m")]);
    assert_eq!(other.current_sequence_name, Some(s("m")));
    assert_eq!(other.current_file_path, Some(s("/tmp/f.json")));
    assert_eq!(kinds(&other), vec![PaletteKind::Navigate]);
    assert_eq!(other.logs.last().unwrap(), "✅ Load complete: /tmp/f.json (main +1, sub +0)");
}

#[test]
fn merge_renames_clashing_names() {
    let mut w = Workspace::new();
    w.drop_new(PaletteKind::Navigate, 0);
    w.send_to_list();
    w.set_save_as_name(s("m"));
    w.confirm_save_as();
    let mut f = SequenceFile::empty();
    f.insert_main(seq_of("m", vec![nav("x")]));
    f.insert_sub(seq_of("d", vec![]));
    w.load_file(f, s("p"), true);
    assert_eq!(w.main_sequence_names, vec![s("m"), s("m_1")]);
    assert_eq!(w.sub_sequence_names, vec![s("d")]);
    assert_eq!(w.current_sequence_name, Some(s("m")));
    assert_eq!(w.logs.last().unwrap(), "✅ Merge complete: p (main +1, sub +1)");
}

#[test]
fn file_messages() {
    let mut w = Workspace::new();
    w.file_saved(Ok(s("/x.json")));
    assert_eq!(w.current_file_path, Some(s("/x.json")));
    assert_eq!(w.logs.last().unwrap(), "✅ Saved: /x.json");
    w.file_saved(Err(s("Cancelled")));
    assert_eq!(w.logs.len(), 1);
    w.file_saved(Err(s("disk full")));
    assert_eq!(w.logs.last().unwrap(), "❌ disk full");
    w.file_not_loaded("bad");
    assert_eq!(w.logs.last().unwrap(), "❌ JSON parse error (Not a valid SequenceFile): bad");
    w.file_not_read("Cancelled");
    assert_eq!(w.logs.len(), 3);
    w.clear_logs();
    assert!(w.logs.is_empty());
}

#[test]
fn edit_and_save_a_handler() {
    let mut w = Workspace::new();
    w.drop_new(PaletteKind::Navigate, 0);
    w.edit_handler(0);
    assert!(w.editor.is_open);
    assert_eq!(w.editing_index, Some(0));
    w.editor_msg(EditorMsg::BindStrValueChanged(FieldId::Url, s("https://edited")));
    w.editor_msg(EditorMsg::BindStrToggle(FieldId::Url, true));
    w.editor_msg(EditorMsg::BindStrKeyChanged(FieldId::Url, s("site")));
    w.editor_msg(EditorMsg::Save);
    assert!(!w.editor.is_open);
    assert_eq!(w.editing_index, None);
    match &w.workflow[0] {
        Handler::Item(Step::Act(Action::Navigate { url })) => {
            assert_eq!(url.value, "https://edited");
            assert_eq!(url.binding, Some(s("site")));
        },
        _ => panic!("not a navigation"),
    }
    assert_eq!(w.test_inputs.binding_keys, vec![s("site")]);
    w.edit_handler(9);
    assert!(!w.editor.is_open);
}

#[test]
fn editing_sub_sequence_offers_container_fields() {
    let mut w = Workspace::new();
    w.workflow = vec![container(&["title"]), Handler::SubSequence(seq_of("d", vec![]))];
    w.edit_handler(1);
    let fields: Vec<String> = w.editor.container_fields.iter().map(|f| f.field_name.clone()).collect();
    assert_eq!(fields, vec![s("_index"), s("title")]);
}

#[test]
fn run_request_checks_workflow_and_url() {
    let mut w = Workspace::new();
    assert!(w.run_request().is_none());
    assert_eq!(w.browser_status, "⚠️ No sequence to run");
    w.drop_new(PaletteKind::Navigate, 0);
    w.set_start_url(s(""));
    assert!(w.run_request().is_none());
    assert_eq!(w.browser_status, "⚠️ Please enter a start URL");
    w.set_start_url(s("https://start"));
    w.set_browser_type(BrowserType::Mobile);
    w.test_input(TestInputMsg::ValueChanged(s("q"), s("v")));
    let req = w.run_request().unwrap();
    assert!(w.sequence_running);
    assert_eq!(req.start_url, "https://start");
    assert_eq!(req.device, "mobile");
    assert_eq!(req.sequence.sequence_name, "untitled");
    assert_eq!(req.inputs.get("q").map(|v| v.as_str()), Some("v"));
    assert_eq!(
        w.logs,
        vec![s("🚀 Starting sequence 'untitled'"), s("   📍 URL: https://start"), s("   📱 Device: Mobile")]
    );
    assert!(w.run_request().is_none());
}

#[test]
fn finished_run_logs_rows() {
    let mut w = Workspace::new();
    let mut row = StrMap::new();
    row.insert(s("t"), "x".repeat(61));
    w.sequence_finished(Ok(RunnerReply::Parsed { logs: vec![s("l1")], message: None, data: Some(vec![row]) }));
    assert!(!w.sequence_running);
    assert_eq!(w.browser_status, "✅ Execution complete");
    let rule = "─".repeat(60);
    assert_eq!(
        w.logs,
        vec![
            s("l1"),
            s("\n📊 Results (1 건):"),
            rule.clone(),
            s("[1]"),
            format!("  t: {}...", "x".repeat(60)),
            rule,
        ]
    );
    assert_eq!(w.last_result.as_ref().map(|r| r.len()), Some(1));
    w.sequence_finished(Err(s("boom")));
    assert_eq!(w.browser_status, "❌ boom");
    assert!(w.last_result.is_none());
}

#[test]
fn browser_lifecycle_messages() {
    let mut w = Workspace::new();
    assert!(w.open_browser_request());
    assert_eq!(w.browser_status, "🚀 Starting browser_runner...");
    w.browser_opened(Ok(RunnerReply::Parsed { logs: vec![s("a")], message: Some(s("ready")), data: None }));
    assert!(w.browser_running);
    assert_eq!(w.browser_status, "✅ ready");
    assert!(!w.open_browser_request());
    w.set_browser_type(BrowserType::Mobile);
    assert_eq!(w.browser_type, BrowserType::Desktop);
    assert!(!w.stop_request());
    assert!(w.close_request());
    w.browser_closed(Ok(RunnerReply::Raw(s("bye"))));
    assert!(!w.browser_running);
    assert_eq!(w.browser_status, "⏹️ Browser closed");
    w.browser_opened(Err(s("no chrome")));
    assert_eq!(w.logs.last().unwrap(), "❌ Failed to open browser: no chrome");
    w.exit_request();
    assert_eq!(w.logs.last().unwrap(), "🔴 Exiting... sending shutdown signal to browser_runner");
}

#[test]
fn saved_sub_sequence_comes_back_when_selected() {
    let mut w = Workspace::new();
    w.new_sequence(SequenceType::Sub);
    w.drop_new(PaletteKind::Click, 0);
    w.drop_new(PaletteKind::Wait, 1);
    w.send_to_list();
    assert_eq!(w.save_as_name, "sub_1");
    w.confirm_save_as();
    w.new_sequence(SequenceType::Main);
    w.select_sequence(s("sub_1"));
    assert_eq!(w.current_sequence_type, SequenceType::Sub);
    assert_eq!(kinds(&w), vec![PaletteKind::Click, PaletteKind::Wait]);
}

#[test]
fn unique_name_is_never_taken() {
    let taken = vec![s("n"), s("n_1"), s("n_3")];
    let u = unique_name("n", &taken);
    assert_eq!(u, "n_2");
    assert!(!taken.contains(&u));
}
