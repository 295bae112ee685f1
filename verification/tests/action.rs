use crude::action::{
    dismiss_selectors, first_containing, first_frame, fits, resolve_href, resume_action, start_action,
    trim_end_char, ActStep, Command, FrameIds, Pending, Reply, RunError, WAIT_POLL_MS,
};
use crude::workflow::{Action, BindValue, ExecContext, KeyAction};

fn s(x: &str) -> String {
    x.to_string()
}

fn lit(x: &str) -> BindValue<String> {
    BindValue::new(s(x))
}

fn issued(step: ActStep) -> (Command, Pending) {
    match step {
        ActStep::Issue(c, p) => (c, p),
        ActStep::Complete(_) => panic!("completed"),
        ActStep::Fail(e) => panic!("failed: {:?}", e),
    }
}

fn completes(step: &ActStep) -> bool {
    matches!(step, ActStep::Complete(_))
}

fn failure(step: ActStep) -> RunError {
    match step {
        ActStep::Fail(e) => e,
        _ => panic!("no failure"),
    }
}

#[test]
fn click_and_navigate_issue_one_command() {
    let ctx = ExecContext::new();
    let (c, p) = issued(start_action(&Action::Click { selector_string: lit("#go") }, &ctx));
    assert_eq!(c, Command::Visibility { selector: s("#go") });
    let (c, p) = issued(resume_action(p, Reply::Visible(Some(true))));
    assert_eq!(c, Command::ClickFirst { selector: s("#go") });
    assert!(matches!(p, Pending::Finish));
    assert!(completes(&resume_action(p, Reply::Done)));
    let (c, _) = issued(start_action(&Action::Navigate { url: lit("https://a.b") }, &ctx));
    assert_eq!(c, Command::Goto { url: s("https://a.b") });
    let (c, _) = issued(start_action(&Action::PressKey { key: KeyAction::Tab }, &ctx));
    assert_eq!(c, Command::PressKey { key: KeyAction::Tab });
    let (c, _) = issued(start_action(&Action::Refresh, &ctx));
    assert_eq!(c, Command::Refresh);
    let (c, _) = issued(start_action(&Action::Backward, &ctx));
    assert_eq!(c, Command::Back);
}

#[test]
fn bound_parameters_take_the_binding() {
    let mut ctx = ExecContext::new();
    ctx.bindings.insert(s("q"), s("https://bound.example"));
    ctx.bindings.insert(s("ms"), s("250"));
    ctx.bindings.insert(s("bad"), s("x1"));
    let a = Action::Navigate { url: BindValue::with_binding(s("https://literal"), "q") };
    assert_eq!(issued(start_action(&a, &ctx)).0, Command::Goto { url: s("https://bound.example") });
    let a = Action::Wait { time_ms: BindValue::with_binding(7, "ms") };
    assert_eq!(issued(start_action(&a, &ctx)).0, Command::Sleep { ms: 250 });
    let a = Action::Wait { time_ms: BindValue::with_binding(7, "bad") };
    assert_eq!(issued(start_action(&a, &ctx)).0, Command::Sleep { ms: 7 });
    let a = Action::Wait { time_ms: BindValue::with_binding(9, "absent") };
    assert_eq!(issued(start_action(&a, &ctx)).0, Command::Sleep { ms: 9 });
}

#[test]
fn resolve_with_and_without_context() {
    let mut ctx = ExecContext::new();
    ctx.bindings.insert(s("k"), s("-42"));
    let b = BindValue::with_binding(s("lit"), "k");
    assert_eq!(b.resolve(Some(&ctx)), "-42");
    assert_eq!(b.resolve(None), "lit");
    let n = BindValue::with_binding(5i64, "k");
    assert_eq!(n.resolve(Some(&ctx)), -42);
    let u = BindValue::with_binding(5u64, "k");
    assert_eq!(u.resolve(Some(&ctx)), 5);
}

#[test]
fn wait_for_probes_until_found() {
    let ctx = ExecContext::new();
    let a = Action::WaitFor { selector_string: lit(".x"), time_ms: BindValue::new(250) };
    let (c, p) = issued(start_action(&a, &ctx));
    assert_eq!(c, Command::Probe { selector: s(".x") });
    let (c, p) = issued(resume_action(p, Reply::Found(false)));
    assert_eq!(c, Command::Sleep { ms: WAIT_POLL_MS });
    let (c, p) = issued(resume_action(p, Reply::Done));
    assert_eq!(c, Command::Probe { selector: s(".x") });
    assert!(completes(&resume_action(p, Reply::Found(true))));
}

#[test]
fn wait_for_fails_once_its_time_has_passed() {
    let ctx = ExecContext::new();
    let a = Action::WaitFor { selector_string: lit(".never"), time_ms: BindValue::new(250) };
    let (_, mut p) = issued(start_action(&a, &ctx));
    let mut pauses: Vec<u64> = Vec::new();
    loop {
        match resume_action(p, Reply::Found(false)) {
            ActStep::Issue(Command::Sleep { ms }, pause) => {
                pauses.push(ms);
                let (c, q) = issued(resume_action(pause, Reply::Done));
                assert_eq!(c, Command::Probe { selector: s(".never") });
                p = q;
            },
            other => {
                let e = failure(other);
                assert_eq!(e, RunError::WaitTimeout { selector: s(".never") });
                assert_eq!(e.message(), "Timed out waiting for '.never'");
                break;
            },
        }
    }
    assert_eq!(pauses, vec![100, 100, 50]);
}

#[test]
fn wait_for_with_no_time_probes_once() {
    let ctx = ExecContext::new();
    let a = Action::WaitFor { selector_string: lit("#a"), time_ms: BindValue::new(0) };
    let (_, p) = issued(start_action(&a, &ctx));
    let e = failure(resume_action(p, Reply::Found(false)));
    assert_eq!(e, RunError::WaitTimeout { selector: s("#a") });
}

#[test]
fn failed_command_fails_the_action() {
    let ctx = ExecContext::new();
    let (_, p) = issued(start_action(&Action::Click { selector_string: lit("a") }, &ctx));
    let (_, p) = issued(resume_action(p, Reply::Visible(Some(true))));
    let e = failure(resume_action(p, Reply::Failed(s("no such element"))));
    assert_eq!(e, RunError::Browser { message: s("no such element") });
    assert_eq!(e.message(), "no such element");
}

#[test]
fn click_needs_a_displayed_element() {
    let ctx = ExecContext::new();
    let a = Action::Click { selector_string: lit("#hidden") };
    let (_, p) = issued(start_action(&a, &ctx));
    let e = failure(resume_action(p, Reply::Visible(None)));
    assert_eq!(e, RunError::ElementNotFound { selector: s("#hidden") });
    assert_eq!(e.message(), "Element '#hidden' not found");
    let (_, p) = issued(start_action(&a, &ctx));
    let e = failure(resume_action(p, Reply::Visible(Some(false))));
    assert_eq!(e, RunError::NotVisible { selector: s("#hidden") });
    assert_eq!(e.message(), "Element '#hidden' is not visible");
}

#[test]
fn click_by_text_clicks_first_match() {
    let ctx = ExecContext::new();
    let a = Action::ClickByText { selector_string: lit("button"), text: lit("Next") };
    let (c, p) = issued(start_action(&a, &ctx));
    assert_eq!(c, Command::ElementTexts { selector: s("button") });
    let texts = vec![Some(s("Prev")), None, Some(s("Go Next »")), Some(s("Next"))];
    let (c, _) = issued(resume_action(p, Reply::Texts(texts)));
    assert_eq!(c, Command::ClickElement { selector: s("button"), index: 2 });
    let (_, p) = issued(start_action(&a, &ctx));
    let e = failure(resume_action(p, Reply::Texts(vec![Some(s("Other"))])));
    assert_eq!(e, RunError::TextNotFound { selector: s("button"), text: s("Next") });
    assert_eq!(e.message(), "No element of 'button' contains 'Next'");
}

#[test]
fn get_html_rejects_invalid_selector() {
    let ctx = ExecContext::new();
    let a = Action::GetHTML { selector_string: lit("div[["), time_ms: BindValue::new(10) };
    let e = failure(start_action(&a, &ctx));
    assert_eq!(e, RunError::InvalidHtmlSelector { selector: s("div[[") });
    assert_eq!(e.message(), "Invalid CSS selector: div[[");
}

#[test]
fn get_html_retries_until_selector_appears() {
    let ctx = ExecContext::new();
    let a = Action::GetHTML { selector_string: lit("li.item"), time_ms: BindValue::new(50) };
    let (c, p) = issued(start_action(&a, &ctx));
    assert_eq!(c, Command::FetchHtml);
    let (c, p) = issued(resume_action(p, Reply::Html(s("<html><body></body></html>"))));
    assert_eq!(c, Command::Sleep { ms: 50 });
    let (c, p) = issued(resume_action(p, Reply::Done));
    assert_eq!(c, Command::FetchHtml);
    match resume_action(p, Reply::Html(s("<ul><li class=\"item\">x</li></ul>"))) {
        ActStep::Complete(Some(page)) => assert_eq!(page.html(), "<ul><li class=\"item\">x</li></ul>"),
        _ => panic!("no page"),
    }
}

#[test]
fn get_html_fails_after_ten_snapshots() {
    let ctx = ExecContext::new();
    let a = Action::GetHTML { selector_string: lit("#missing"), time_ms: BindValue::new(0) };
    let (_, mut p) = issued(start_action(&a, &ctx));
    let mut fetches = 1;
    loop {
        match resume_action(p, Reply::Html(s("<p>none</p>"))) {
            ActStep::Issue(Command::Sleep { .. }, pause) => {
                let (c, q) = issued(resume_action(pause, Reply::Done));
                assert_eq!(c, Command::FetchHtml);
                fetches += 1;
                p = q;
            },
            other => {
                let e = failure(other);
                assert_eq!(e.message(), "Selector '#missing' not found");
                break;
            },
        }
    }
    assert_eq!(fetches, 10);
}

#[test]
fn new_tab_opens_switches_and_navigates() {
    let ctx = ExecContext::new();
    let (c, p) = issued(start_action(&Action::NewTab { url: lit("https://t") }, &ctx));
    assert_eq!(c, Command::NewTab);
    let (c, p) = issued(resume_action(p, Reply::Done));
    assert_eq!(c, Command::CountTabs);
    let (c, p) = issued(resume_action(p, Reply::TabCount(3)));
    assert_eq!(c, Command::SwitchTab { index: 2 });
    let (c, p) = issued(resume_action(p, Reply::Done));
    assert_eq!(c, Command::Goto { url: s("https://t") });
    assert!(completes(&resume_action(p, Reply::Done)));
}

#[test]
fn switch_tab_ignores_missing_index() {
    let ctx = ExecContext::new();
    let a = Action::SwitchTab { index: BindValue::new(5) };
    let (_, p) = issued(start_action(&a, &ctx));
    assert!(completes(&resume_action(p, Reply::TabCount(2))));
    let (_, p) = issued(start_action(&Action::SwitchTab { index: BindValue::new(1) }, &ctx));
    assert_eq!(issued(resume_action(p, Reply::TabCount(2))).0, Command::SwitchTab { index: 1 });
}

#[test]
fn close_tab_moves_to_last_tab() {
    let ctx = ExecContext::new();
    let (c, p) = issued(start_action(&Action::CloseTab, &ctx));
    assert_eq!(c, Command::CloseWindow);
    let (c, p) = issued(resume_action(p, Reply::Done));
    assert_eq!(c, Command::CountTabs);
    assert_eq!(issued(resume_action(p, Reply::TabCount(2))).0, Command::SwitchTab { index: 1 });
}

#[test]
fn scroll_down_stops_when_close_enough() {
    let ctx = ExecContext::new();
    let (c, p) = issued(start_action(&Action::ScrollDown { scroll: BindValue::new(500) }, &ctx));
    assert_eq!(c, Command::ScrollBy { delta: 500 });
    let (c, p) = issued(resume_action(p, Reply::Moved(300)));
    assert_eq!(c, Command::Sleep { ms: 100 });
    let (c, p) = issued(resume_action(p, Reply::Done));
    assert_eq!(c, Command::ScrollBy { delta: 200 });
    assert!(completes(&resume_action(p, Reply::Moved(195))));
}

#[test]
fn scroll_up_negates_and_zero_does_nothing() {
    let ctx = ExecContext::new();
    let (c, _) = issued(start_action(&Action::ScrollUp { scroll: BindValue::new(40) }, &ctx));
    assert_eq!(c, Command::ScrollBy { delta: -40 });
    assert!(completes(&start_action(&Action::ScrollDown { scroll: BindValue::new(0) }, &ctx)));
    let (_, p) = issued(start_action(&Action::ScrollDown { scroll: BindValue::new(100) }, &ctx));
    assert!(completes(&resume_action(p, Reply::Moved(0))));
}

#[test]
fn switch_to_frame_enters_matching_frame() {
    let ctx = ExecContext::new();
    let (c, p) = issued(start_action(&Action::SwitchToFrame { selector_string: lit("#f") }, &ctx));
    assert_eq!(c, Command::FrameAttributes { selector: s("#f") });
    let target = FrameIds { id: Some(s("f")), name: None, src: None };
    let frames = vec![
        FrameIds { id: Some(s("ad")), name: None, src: None },
        FrameIds { id: Some(s("f")), name: Some(s("main")), src: None },
    ];
    assert_eq!(issued(resume_action(p, Reply::Frames { target, frames })).0, Command::EnterFrame { index: 1 });
}

#[test]
fn first_frame_matches_any_present_attribute() {
    let target = FrameIds { id: None, name: None, src: Some(s("/a.html")) };
    let frames = vec![
        FrameIds { id: None, name: None, src: None },
        FrameIds { id: Some(s("x")), name: None, src: Some(s("/a.html")) },
    ];
    assert_eq!(first_frame(&target, &frames), Some(1));
    let none = FrameIds { id: None, name: None, src: None };
    assert_eq!(first_frame(&none, &frames), None);
}

#[test]
fn first_containing_skips_unreadable() {
    let ts = vec![None, Some(s("abc")), Some(s("xbcx"))];
    assert_eq!(first_containing(&ts, "bc"), Some(1));
    assert_eq!(first_containing(&ts, "zz"), None);
    assert_eq!(first_containing(&vec![], ""), None);
}

#[test]
fn dismiss_popups_tries_eight_selectors() {
    let ctx = ExecContext::new();
    let (c, mut p) = issued(start_action(&Action::DismissPermission, &ctx));
    let sels = dismiss_selectors();
    assert_eq!(sels.len(), 8);
    assert_eq!(sels[6], "[data-testid*='deny']");
    assert_eq!(c, Command::Visibility { selector: sels[0].clone() });
    let mut looked = 1;
    loop {
        let visible = looked == 3;
        match resume_action(p, Reply::Visible(Some(visible))) {
            ActStep::Issue(Command::Visibility { selector }, q) => {
                assert_eq!(selector, sels[looked]);
                looked += 1;
                p = q;
            },
            ActStep::Issue(Command::TryClickFirst { selector }, q) => {
                assert_eq!(selector, sels[2]);
                let (c, q) = issued(resume_action(q, Reply::Done));
                assert_eq!(c, Command::Sleep { ms: 500 });
                let (c, q) = issued(resume_action(q, Reply::Done));
                assert_eq!(c, Command::Visibility { selector: sels[3].clone() });
                looked += 1;
                p = q;
            },
            other => {
                assert!(completes(&other));
                break;
            },
        }
    }
    assert_eq!(looked, 8);
}

#[test]
fn replies_fit_their_pending_step() {
    assert!(fits(&Pending::Finish, &Reply::Done));
    assert!(!fits(&Pending::Finish, &Reply::Found(true)));
    assert!(fits(&Pending::Finish, &Reply::Failed(s("x"))));
    assert!(fits(&Pending::TabsForLast, &Reply::TabCount(0)));
    assert!(!fits(&Pending::TabsCounted { url: s("u") }, &Reply::TabCount(0)));
}

#[test]
fn href_resolution() {
    assert_eq!(resolve_href("https://a.com/x/", "https://b.com/y"), "https://b.com/y");
    assert_eq!(resolve_href("https://a.com/x/", "page?id=1"), "https://a.com/x/page?id=1");
    assert_eq!(resolve_href("https://a.com/x/y", "/root"), "https://a.com/root");
    assert_eq!(resolve_href("https://a.com/x/y", "../up"), "https://a.com/up");
    assert_eq!(resolve_href("not a url//", "rel"), "not a url/rel");
    assert_eq!(resolve_href("base//", "/abs"), "base/abs");
}

#[test]
fn trailing_characters_trimmed() {
    assert_eq!(trim_end_char("a///", '/'), "a");
    assert_eq!(trim_end_char("///", '/'), "");
    assert_eq!(trim_end_char("a/b", '/'), "a/b");
}

#[test]
fn error_messages() {
    assert_eq!(RunError::Stopped { sequence: s("main") }.message(), "main🛑 Stop signal");
    assert_eq!(RunError::NoPage.message(), "No HTML available before running Container.");
    assert_eq!(RunError::InvalidSelector { selector: s("[") }.message(), "Selector parsing failed: [");
}
