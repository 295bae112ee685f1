use crude::action::{Command, FrameIds, Reply, RunError};
use crude::map::StrMap;
use crude::page::{BadSelector, Page, Scope};
use crude::runner::{run_container, Progress, Runner};
use crude::workflow::{Action, BindValue, ExecContext, Extraction, Handler, Sequence, Step};

fn s(x: &str) -> String {
    x.to_string()
}

fn lit(x: &str) -> BindValue<String> {
    BindValue::new(s(x))
}

fn seq(name: &str, handlers: Vec<Handler>) -> Sequence {
    Sequence { sequence_name: s(name), step_sequence: handlers, target_data: StrMap::new(), metadata: vec![] }
}

fn get_html(sel: &str) -> Handler {
    Handler::Item(Step::Act(Action::GetHTML { selector_string: lit(sel), time_ms: BindValue::new(0) }))
}

fn text(sel: &str, field: &str) -> Step {
    Step::Extract(Extraction::Text { selector_string: lit(sel), field_name: lit(field) })
}

fn attr(sel: &str, field: &str, a: &str) -> Step {
    Step::Extract(Extraction::Attribute { selector_string: lit(sel), field_name: lit(field), attr_str: lit(a) })
}

fn entries(m: &StrMap<String>) -> Vec<(String, String)> {
    let mut v = vec![];
    for i in 0..m.len() {
        let (k, x) = m.entry(i);
        v.push((k.clone(), x.clone()));
    }
    v
}

fn pairs(p: &[(&str, &str)]) -> Vec<(String, String)> {
    p.iter().map(|(a, b)| (s(a), s(b))).collect()
}

/// A browser that serves one page and records where it was sent.
struct FakeBrowser {
    html: String,
    visited: Vec<String>,
    commands: usize,
    fail_on: Option<usize>,
    scoped: Vec<(Command, Scope)>,
}

impl FakeBrowser {
    fn new(html: &str) -> Self {
        FakeBrowser { html: s(html), visited: vec![], commands: 0, fail_on: None, scoped: vec![] }
    }

    fn answer(&mut self, c: Command, scope: Scope) -> Reply {
        self.commands += 1;
        let reply = self.reply_to(&c);
        if scope != Scope::Document {
            self.scoped.push((c, scope));
        }
        reply
    }

    fn reply_to(&mut self, c: &Command) -> Reply {
        if self.fail_on == Some(self.commands) {
            return Reply::Failed(s("session lost"));
        }
        match c {
            Command::Goto { url } => {
                self.visited.push(url.clone());
                Reply::Done
            },
            Command::FetchHtml => Reply::Html(self.html.clone()),
            Command::Probe { .. } => Reply::Found(true),
            Command::Visibility { .. } => Reply::Visible(Some(true)),
            Command::ElementTexts { .. } => Reply::Texts(vec![]),
            Command::FrameAttributes { .. } => Reply::Frames {
                target: FrameIds { id: None, name: None, src: None },
                frames: vec![],
            },
            Command::CountTabs => Reply::TabCount(1),
            Command::ScrollBy { delta } => Reply::Moved(*delta),
            _ => Reply::Done,
        }
    }
}

fn drive(seq: Sequence, ctx: ExecContext, b: &mut FakeBrowser) -> Result<Vec<StrMap<String>>, RunError> {
    let mut r = Runner::new(seq, ctx);
    let mut p = r.advance(false);
    loop {
        match p {
            Progress::Busy => {
                assert!(!r.is_waiting());
                p = r.advance(false);
            },
            Progress::Issue(c, scope) => {
                assert!(r.is_waiting());
                let reply = b.answer(c, scope);
                assert!(r.accepts(&reply));
                p = r.reply(reply);
            },
            Progress::Finished(rows) => {
                assert!(r.is_done());
                return Ok(rows);
            },
            Progress::Failed(e) => {
                assert!(r.is_done());
                return Err(e);
            },
        }
    }
}

const LIST: &str = "<html><body><h1> Shop </h1><ul>\
    <li class=\"item\"><span class=\"name\">Apple</span><a href=\"/a\">x</a></li>\
    <li class=\"item\"><span class=\"name\">Pear</span><a href=\"/p\">x</a></li>\
    <li class=\"item\"><span class=\"name\">Apple</span><a href=\"/a2\">x</a></li>\
    </ul><p class=\"detail\">Fresh</p></body></html>";

#[test]
fn plain_extraction_yields_one_data_row() {
    let mut b = FakeBrowser::new(LIST);
    let sq = seq("main", vec![get_html("h1"), Handler::Item(text("h1", "title"))]);
    let rows = drive(sq, ExecContext::new(), &mut b).unwrap();
    assert_eq!(rows.len(), 1);
    assert_eq!(entries(&rows[0]), pairs(&[("title", "Shop")]));
}

#[test]
fn extraction_before_any_page_is_skipped() {
    let mut b = FakeBrowser::new(LIST);
    let sq = seq("main", vec![Handler::Item(text("h1", "title"))]);
    assert!(drive(sq, ExecContext::new(), &mut b).unwrap().is_empty());
}

#[test]
fn container_yields_row_per_element_with_index() {
    let mut b = FakeBrowser::new(LIST);
    let mut sq = seq(
        "main",
        vec![
            get_html("li.item"),
            Handler::Container {
                selector: lit("li.item"),
                steps: vec![text("span.name", "name"), attr("a", "link", "href")],
                dedup: false,
            },
        ],
    );
    sq.target_data.insert(s("src"), s("shop"));
    let rows = drive(sq, ExecContext::new(), &mut b).unwrap();
    assert_eq!(rows.len(), 3);
    assert_eq!(entries(&rows[0]), pairs(&[("src", "shop"), ("_index", "0"), ("name", "Apple"), ("link", "/a")]));
    assert_eq!(entries(&rows[1]), pairs(&[("src", "shop"), ("_index", "1"), ("name", "Pear"), ("link", "/p")]));
    assert_eq!(entries(&rows[2]), pairs(&[("src", "shop"), ("_index", "2"), ("name", "Apple"), ("link", "/a2")]));
}

#[test]
fn container_runs_its_actions_in_each_element() {
    let mut b = FakeBrowser::new(LIST);
    let sq = seq(
        "main",
        vec![
            get_html("li.item"),
            Handler::Container {
                selector: lit("li.item"),
                steps: vec![Step::Act(Action::Click { selector_string: lit("a") }), text("span.name", "name")],
                dedup: false,
            },
        ],
    );
    let rows = drive(sq, ExecContext::new(), &mut b).unwrap();
    let mut expected = vec![];
    for i in 0..3 {
        let within = || Scope::Element { selector: s("li.item"), index: i };
        expected.push((Command::Visibility { selector: s("a") }, within()));
        expected.push((Command::ClickFirst { selector: s("a") }, within()));
    }
    assert_eq!(b.scoped, expected);
    assert_eq!(rows.len(), 3);
    assert_eq!(entries(&rows[1]), pairs(&[("_index", "1"), ("name", "Pear")]));
}

#[test]
fn container_action_failure_stops_the_run() {
    let mut b = FakeBrowser::new(LIST);
    b.fail_on = Some(4);
    let sq = seq(
        "main",
        vec![
            get_html("li.item"),
            Handler::Container {
                selector: lit("li.item"),
                steps: vec![Step::Act(Action::Click { selector_string: lit("a") })],
                dedup: false,
            },
        ],
    );
    let e = drive(sq, ExecContext::new(), &mut b).unwrap_err();
    assert_eq!(e, RunError::Browser { message: s("session lost") });
    assert_eq!(b.scoped.len(), 3);
}

#[test]
fn dedup_container_keeps_first_of_each_key() {
    let mut b = FakeBrowser::new(LIST);
    let sq = seq(
        "main",
        vec![
            get_html("li.item"),
            Handler::Container {
                selector: lit("li.item"),
                steps: vec![text("span.name", "name"), attr("a", "link", "href")],
                dedup: true,
            },
        ],
    );
    let rows = drive(sq, ExecContext::new(), &mut b).unwrap();
    assert_eq!(rows.len(), 2);
    assert_eq!(rows[0].get("name").map(|v| v.as_str()), Some("Apple"));
    assert_eq!(rows[0].get("link").map(|v| v.as_str()), Some("/a"));
    assert_eq!(rows[1].get("name").map(|v| v.as_str()), Some("Pear"));
}

#[test]
fn sub_sequence_runs_per_row_and_keeps_row_fields() {
    let mut b = FakeBrowser::new(LIST);
    let sub = seq(
        "detail",
        vec![
            Handler::Item(Step::Act(Action::Navigate { url: BindValue::with_binding(s("about:blank"), "link") })),
            get_html("p.detail"),
            Handler::Item(text("p.detail", "detail")),
        ],
    );
    let sq = seq(
        "main",
        vec![
            get_html("li.item"),
            Handler::Container { selector: lit("li.item"), steps: vec![text("span.name", "name"), attr("a", "link", "href")], dedup: false },
            Handler::SubSequence(sub),
        ],
    );
    let rows = drive(sq, ExecContext::new(), &mut b).unwrap();
    assert_eq!(b.visited, vec![s("/a"), s("/p"), s("/a2")]);
    assert_eq!(rows.len(), 3);
    for (i, r) in rows.iter().enumerate() {
        assert_eq!(r.get("detail").map(|v| v.as_str()), Some("Fresh"));
        assert_eq!(r.get("_index").map(|v| v.as_str()), Some(["0", "1", "2"][i]));
        assert!(r.contains_key("name"));
        assert!(r.contains_key("link"));
    }
}

#[test]
fn sub_sequence_without_output_keeps_container_row() {
    let mut b = FakeBrowser::new(LIST);
    let sub = seq("noop", vec![Handler::Item(Step::Act(Action::Refresh))]);
    let sq = seq(
        "main",
        vec![
            get_html("li.item"),
            Handler::Container { selector: lit("li.item"), steps: vec![text("span.name", "name")], dedup: true },
            Handler::SubSequence(sub),
        ],
    );
    let rows = drive(sq, ExecContext::new(), &mut b).unwrap();
    assert_eq!(rows.len(), 2);
    assert_eq!(entries(&rows[1]), pairs(&[("_index", "1"), ("name", "Pear")]));
}

#[test]
fn container_without_page_fails() {
    let mut b = FakeBrowser::new(LIST);
    let sq = seq("main", vec![Handler::Container { selector: lit("li"), steps: vec![], dedup: false }]);
    let e = drive(sq, ExecContext::new(), &mut b).unwrap_err();
    assert_eq!(e, RunError::NoPage);
    assert_eq!(b.commands, 0);
}

#[test]
fn container_with_bad_selector_fails() {
    let mut b = FakeBrowser::new(LIST);
    let sq = seq("main", vec![get_html("li"), Handler::Container { selector: lit("li[["), steps: vec![], dedup: false }]);
    let e = drive(sq, ExecContext::new(), &mut b).unwrap_err();
    assert_eq!(e, RunError::InvalidSelector { selector: s("li[[") });
}

#[test]
fn browser_error_stops_the_run() {
    let mut b = FakeBrowser::new(LIST);
    b.fail_on = Some(2);
    let sq = seq(
        "main",
        vec![
            Handler::Item(Step::Act(Action::Navigate { url: lit("https://one") })),
            Handler::Item(Step::Act(Action::Navigate { url: lit("https://two") })),
            Handler::Item(Step::Act(Action::Navigate { url: lit("https://three") })),
        ],
    );
    let e = drive(sq, ExecContext::new(), &mut b).unwrap_err();
    assert_eq!(e, RunError::Browser { message: s("session lost") });
    assert_eq!(b.visited, vec![s("https://one")]);
    assert_eq!(b.commands, 2);
}

#[test]
fn stop_flag_fails_without_a_command() {
    let sq = seq("main", vec![Handler::Item(Step::Act(Action::Refresh))]);
    let mut r = Runner::new(sq, ExecContext::new());
    match r.advance(true) {
        Progress::Failed(e) => {
            assert_eq!(e, RunError::Stopped { sequence: s("main") });
            assert_eq!(e.message(), "main🛑 Stop signal");
        },
        _ => panic!("expected the stop error"),
    }
    assert!(r.is_done());
}

#[test]
fn empty_sequence_finishes_with_no_rows() {
    let mut b = FakeBrowser::new("");
    assert!(drive(seq("e", vec![]), ExecContext::new(), &mut b).unwrap().is_empty());
}

#[test]
fn bindings_in_context_reach_parameters() {
    let mut b = FakeBrowser::new(LIST);
    let mut ctx = ExecContext::new();
    ctx.bindings.insert(s("start"), s("https://bound"));
    let sq = seq("main", vec![Handler::Item(Step::Act(Action::Navigate { url: BindValue::with_binding(s("x"), "start") }))]);
    drive(sq, ctx, &mut b).unwrap();
    assert_eq!(b.visited, vec![s("https://bound")]);
}

#[test]
fn extracted_fields_become_bindings() {
    let mut b = FakeBrowser::new("<a href=\"https://next\">n</a>");
    let sq = seq(
        "main",
        vec![
            get_html("a"),
            Handler::Item(attr("a", "next", "href")),
            Handler::Item(Step::Act(Action::Navigate { url: BindValue::with_binding(s("x"), "next") })),
        ],
    );
    let rows = drive(sq, ExecContext::new(), &mut b).unwrap();
    assert_eq!(b.visited, vec![s("https://next")]);
    assert_eq!(entries(&rows[0]), pairs(&[("next", "https://next")]));
}

#[test]
fn run_container_directly() {
    let page = Page::parse(s(LIST));
    let ctx = ExecContext::new();
    let mut base = StrMap::new();
    base.insert(s("k"), s("v"));
    let rows = run_container(&page, &lit("li.item"), &vec![text("span.name", "name")], false, &base, &ctx).unwrap();
    assert_eq!(rows.len(), 3);
    assert_eq!(entries(&rows[2]), pairs(&[("k", "v"), ("_index", "2"), ("name", "Apple")]));
    let bad = run_container(&page, &lit("li"), &vec![text("[[", "x")], false, &base, &ctx);
    assert_eq!(bad.unwrap_err(), BadSelector { selector: s("[[") });
    let none = run_container(&page, &lit("table"), &vec![], true, &base, &ctx).unwrap();
    assert!(none.is_empty());
}
