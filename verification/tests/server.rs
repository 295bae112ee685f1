use crude::browser::DeviceType;
use crude::map::StrMap;
use crude::server::{
    bad_json_reply, close_reply, device_type_of, driver_dead_line, driver_failed_reply, field_stats,
    immediate_reply, json_object, json_object_array, json_string_array, make_response,
    make_response_error, make_response_error_with_logs, make_response_ok, make_response_ok_with_logs,
    make_response_with_data, make_response_with_logs, open_reply, parse_command, parse_error_reply,
    run_reply, run_sequence_reply, run_sequence_start, run_start_line, shutdown_reply, stop_reply,
    unknown_command_reply, action_for_parsed, line_reply, JsonValue, LineAction, RunnerCommand,
};

fn s(x: &str) -> String {
    x.to_string()
}

fn obj(fields: Vec<(&str, JsonValue)>) -> JsonValue {
    JsonValue::Object(fields.into_iter().map(|(k, v)| (k.to_string(), v)).collect())
}

fn row(pairs: &[(&str, &str)]) -> StrMap<String> {
    let mut m = StrMap::new();
    for (k, v) in pairs {
        m.insert(k.to_string(), v.to_string());
    }
    m
}

#[test]
fn response_has_status_then_message() {
    assert_eq!(make_response("ok", "pong"), r#"{"status":"ok","message":"pong"}"#);
    assert_eq!(make_response_ok("done"), r#"{"status":"ok","message":"done"}"#);
    assert_eq!(make_response_error("bad"), r#"{"status":"error","message":"bad"}"#);
}

#[test]
fn response_escapes_quotes_backslashes_and_controls() {
    assert_eq!(
        make_response("ok", "a\"b\\c\nd\te\u{1}"),
        r#"{"status":"ok","message":"a\"b\\c\nd\te\u0001"}"#
    );
}

#[test]
fn response_keeps_non_ascii_text() {
    assert_eq!(make_response("ok", "정상 ✅"), "{\"status\":\"ok\",\"message\":\"정상 ✅\"}");
}

#[test]
fn response_with_logs_lists_lines_in_order() {
    let logs = vec![s("one"), s("two \"2\"")];
    assert_eq!(
        make_response_with_logs("ok", "m", &logs),
        r#"{"status":"ok","message":"m","logs":["one","two \"2\""]}"#
    );
    assert_eq!(make_response_ok_with_logs("m", &vec![]), r#"{"status":"ok","message":"m","logs":[]}"#);
    assert_eq!(
        make_response_error_with_logs("e", &vec![s("x")]),
        r#"{"status":"error","message":"e","logs":["x"]}"#
    );
}

#[test]
fn string_array_and_objects() {
    assert_eq!(json_string_array(&vec![]), "[]");
    assert_eq!(json_string_array(&vec![s("a"), s("b")]), r#"["a","b"]"#);
    let r = row(&[("title", "Hello"), ("_index", "0")]);
    assert_eq!(json_object(&r), r#"{"title":"Hello","_index":"0"}"#);
    assert_eq!(json_object(&StrMap::new()), "{}");
    let rows = vec![row(&[("a", "1")]), row(&[("b", "2"), ("c", "")])];
    assert_eq!(json_object_array(&rows), r#"[{"a":"1"},{"b":"2","c":""}]"#);
}

#[test]
fn response_with_data_carries_rows_and_logs() {
    let rows = vec![row(&[("name", "x")])];
    assert_eq!(
        make_response_with_data("done", &rows, &vec![s("l")]),
        r#"{"status":"ok","message":"done","data":[{"name":"x"}],"logs":["l"]}"#
    );
}

#[test]
fn parse_ping_stop_close_shutdown() {
    for (name, want) in [("ping", 0), ("stop", 1), ("close", 2), ("shutdown", 3)] {
        let c = parse_command(&obj(vec![("cmd", JsonValue::Str(s(name)))])).unwrap();
        let got = match c {
            RunnerCommand::Ping => 0,
            RunnerCommand::Stop => 1,
            RunnerCommand::Close => 2,
            RunnerCommand::Shutdown => 3,
            _ => 99,
        };
        assert_eq!(got, want);
    }
}

#[test]
fn parse_open_reads_device_and_headless() {
    let j = obj(vec![
        ("cmd", JsonValue::Str(s("open"))),
        ("device", JsonValue::Str(s("mobile"))),
        ("headless", JsonValue::Bool(true)),
    ]);
    match parse_command(&j) {
        Some(RunnerCommand::Open { device, headless }) => {
            assert_eq!(device, "mobile");
            assert_eq!(headless, Some(true));
        },
        other => panic!("unexpected {:?}", other),
    }
    let j = obj(vec![("cmd", JsonValue::Str(s("open"))), ("device", JsonValue::Str(s("desktop")))]);
    match parse_command(&j) {
        Some(RunnerCommand::Open { headless, .. }) => assert_eq!(headless, None),
        other => panic!("unexpected {:?}", other),
    }
}

#[test]
fn parse_open_without_device_is_no_command() {
    let j = obj(vec![("cmd", JsonValue::Str(s("open")))]);
    assert!(parse_command(&j).is_none());
}

#[test]
fn parse_run_reads_sequence_and_keyword() {
    let j = obj(vec![
        ("cmd", JsonValue::Str(s("run"))),
        ("sequence_json", JsonValue::Str(s("{}"))),
        ("keyword", JsonValue::Str(s("shoes"))),
    ]);
    match parse_command(&j) {
        Some(RunnerCommand::Run { sequence_json, keyword }) => {
            assert_eq!(sequence_json, "{}");
            assert_eq!(keyword, Some(s("shoes")));
        },
        other => panic!("unexpected {:?}", other),
    }
}

#[test]
fn parse_run_sequence_defaults() {
    let j = obj(vec![
        ("cmd", JsonValue::Str(s("run_sequence"))),
        ("sequence_json", JsonValue::Str(s("{}"))),
        ("start_url", JsonValue::Str(s("https://example.com"))),
        (
            "inputs",
            obj(vec![("q", JsonValue::Str(s("rust"))), ("n", JsonValue::Number(s("3")))]),
        ),
    ]);
    match parse_command(&j) {
        Some(RunnerCommand::RunSequence { start_url, device, headless, inputs, .. }) => {
            assert_eq!(start_url, "https://example.com");
            assert_eq!(device, "desktop");
            assert!(!headless);
            assert_eq!(inputs.len(), 1);
            assert_eq!(inputs.get("q").map(|v| v.as_str()), Some("rust"));
        },
        other => panic!("unexpected {:?}", other),
    }
    let missing_url = obj(vec![
        ("cmd", JsonValue::Str(s("run_sequence"))),
        ("sequence_json", JsonValue::Str(s("{}"))),
    ]);
    assert!(parse_command(&missing_url).is_none());
}

#[test]
fn parse_unknown_or_malformed_is_no_command() {
    assert!(parse_command(&obj(vec![("cmd", JsonValue::Str(s("fly")))])).is_none());
    assert!(parse_command(&obj(vec![("cmd", JsonValue::Bool(true))])).is_none());
    assert!(parse_command(&JsonValue::Array(vec![])).is_none());
    assert!(parse_command(&JsonValue::Null).is_none());
}

#[test]
fn device_names_ignore_case() {
    assert_eq!(device_type_of("mobile"), DeviceType::Mobile);
    assert_eq!(device_type_of("MOBILE"), DeviceType::Mobile);
    assert_eq!(device_type_of("Mobile"), DeviceType::Mobile);
    assert_eq!(device_type_of("desktop"), DeviceType::Desktop);
    assert_eq!(device_type_of("tablet"), DeviceType::Desktop);
}

#[test]
fn immediate_replies_depend_on_browser_state() {
    assert_eq!(
        immediate_reply(&RunnerCommand::Ping, false),
        Some(s(r#"{"status":"ok","message":"pong"}"#))
    );
    let open = RunnerCommand::Open { device: s("desktop"), headless: None };
    assert_eq!(
        immediate_reply(&open, true),
        Some(s(r#"{"status":"error","message":"Browser is already open"}"#))
    );
    assert_eq!(immediate_reply(&open, false), None);
    let run = RunnerCommand::Run { sequence_json: s("{}"), keyword: None };
    assert_eq!(
        immediate_reply(&run, false),
        Some(s(r#"{"status":"error","message":"Browser is not open"}"#))
    );
    assert_eq!(immediate_reply(&run, true), None);
    assert_eq!(
        immediate_reply(&RunnerCommand::Close, false),
        Some(s(r#"{"status":"ok","message":"Browser is already closed"}"#))
    );
    assert_eq!(immediate_reply(&RunnerCommand::Close, true), None);
    assert_eq!(immediate_reply(&RunnerCommand::Stop, true), None);
    assert_eq!(immediate_reply(&RunnerCommand::Shutdown, false), None);
}

#[test]
fn open_reply_success_and_failure() {
    let mut logs = vec![];
    let r = open_reply("mobile", true, Ok(None), &mut logs);
    assert_eq!(logs, vec![s("✅ mobile browser opened (headless=true)")]);
    assert_eq!(
        r,
        "{\"status\":\"ok\",\"message\":\"mobile browser opened (headless=true)\",\"logs\":[\"✅ mobile browser opened (headless=true)\"]}"
    );
    let mut logs = vec![];
    open_reply("desktop", false, Ok(Some(s("timeout"))), &mut logs);
    assert_eq!(
        logs,
        vec![s("⚠️ Initial page load failed: timeout"), s("✅ desktop browser opened (headless=false)")]
    );
    let mut logs = vec![];
    let r = open_reply("desktop", false, Err(s("no chrome")), &mut logs);
    assert_eq!(logs, vec![s("❌ Failed to open browser: no chrome")]);
    assert_eq!(
        r,
        "{\"status\":\"error\",\"message\":\"Failed to open browser: no chrome\",\"logs\":[\"❌ Failed to open browser: no chrome\"]}"
    );
}

#[test]
fn run_start_line_defaults_keyword_to_test() {
    assert_eq!(
        run_start_line("main", &None, 3),
        "▶️ Starting execution of sequence 'main' (keyword: test, 3 handlers)"
    );
    assert_eq!(
        run_start_line("main", &Some(s("bags")), 12),
        "▶️ Starting execution of sequence 'main' (keyword: bags, 12 handlers)"
    );
}

#[test]
fn run_reply_counts_or_reports_error() {
    let mut logs = vec![];
    let r = run_reply("main", Ok(2), &mut logs);
    assert_eq!(logs, vec![s("✅ Sequence 'main' completed (2 results)")]);
    assert_eq!(
        r,
        "{\"status\":\"ok\",\"message\":\"Sequence 'main' execution completed (2 results)\",\"logs\":[\"✅ Sequence 'main' completed (2 results)\"]}"
    );
    let mut logs = vec![];
    let r = run_reply("main", Err(s("boom")), &mut logs);
    assert_eq!(logs, vec![s("❌ Sequence 'main' failed: boom")]);
    assert_eq!(
        r,
        "{\"status\":\"error\",\"message\":\"Execution error: boom\",\"logs\":[\"❌ Sequence 'main' failed: boom\"]}"
    );
}

#[test]
fn run_sequence_start_lists_inputs_when_present() {
    let mut logs = vec![];
    run_sequence_start("s", "https://a.b", "desktop", false, 4, &StrMap::new(), &mut logs);
    assert_eq!(
        logs,
        vec![
            s("🚀 Starting execution of sequence 's'"),
            s("   📍 URL: https://a.b"),
            s("   📱 Device: desktop (headless=false)"),
            s("   📝 Handlers: 4"),
        ]
    );
    let mut logs = vec![];
    let inputs = row(&[("q", "x"), ("page", "2")]);
    run_sequence_start("s", "u", "mobile", true, 0, &inputs, &mut logs);
    assert_eq!(logs.len(), 5);
    assert_eq!(logs[4], "   🔑 Inputs: [\"q\", \"page\"]");
}

#[test]
fn field_stats_count_nonempty_values_by_name() {
    let rows = vec![
        row(&[("title", "a"), ("price", ""), ("_index", "0")]),
        row(&[("title", "b"), ("price", "3"), ("_index", "1")]),
    ];
    let st = field_stats(&rows);
    assert_eq!(st, vec![(s("_index"), 2), (s("price"), 1), (s("title"), 2)]);
    assert!(field_stats(&vec![]).is_empty());
}

#[test]
fn run_sequence_reply_logs_statistics() {
    let rows = vec![row(&[("t", "x")])];
    let mut logs = vec![];
    let r = run_sequence_reply("seq", Ok(rows), &mut logs);
    assert_eq!(
        logs,
        vec![
            s("✅ Sequence 'seq' completed (1 results)"),
            s("   📊 Fields extracted:"),
            s("      - t: 1 values"),
        ]
    );
    assert!(r.starts_with(
        "{\"status\":\"ok\",\"message\":\"Sequence 'seq' execution completed (1 results)\",\"data\":[{\"t\":\"x\"}],\"logs\":["
    ));
    let mut logs = vec![];
    run_sequence_reply("seq", Ok(vec![]), &mut logs);
    assert_eq!(logs, vec![s("✅ Sequence 'seq' completed (0 results)")]);
    let mut logs = vec![];
    let r = run_sequence_reply("seq", Err(s("e")), &mut logs);
    assert_eq!(r, "{\"status\":\"error\",\"message\":\"Execution error: e\",\"logs\":[\"❌ Sequence 'seq' failed: e\"]}");
}

#[test]
fn stop_close_shutdown_replies() {
    let mut logs = vec![];
    let r = stop_reply(&mut logs);
    assert_eq!(logs, vec![s("⏹️ Stop execution requested")]);
    assert!(r.starts_with("{\"status\":\"ok\",\"message\":\"Stop execution requested\""));
    let mut logs = vec![];
    close_reply(&mut logs);
    assert_eq!(logs, vec![s("🔴 Browser closed")]);
    let mut logs = vec![];
    let r = shutdown_reply(true, false, &mut logs);
    assert_eq!(logs, vec![s("🔴 Shutdown command received, cleaning up..."), s("   Browser closed")]);
    assert!(r.starts_with("{\"status\":\"ok\",\"message\":\"shutdown complete\""));
    let mut logs = vec![];
    shutdown_reply(true, true, &mut logs);
    assert_eq!(logs.len(), 3);
    assert_eq!(logs[2], "   chromedriver closed");
}

#[test]
fn error_replies_for_bad_input() {
    assert_eq!(unknown_command_reply(), r#"{"status":"error","message":"Unknown command"}"#);
    assert_eq!(bad_json_reply("eof"), r#"{"status":"error","message":"JSON parsing error: eof"}"#);
    assert_eq!(
        parse_error_reply("missing field"),
        r#"{"status":"error","message":"Sequence parsing error: missing field"}"#
    );
    assert_eq!(driver_dead_line(), "⚠️ chromedriver is dead, restarting...");
    assert_eq!(
        driver_failed_reply(&vec![]),
        r#"{"status":"error","message":"Failed to start chromedriver","logs":[]}"#
    );
}

fn answer(a: LineAction) -> String {
    match a {
        LineAction::Answer(x) => x,
        other => panic!("not an answer: {:?}", other),
    }
}

#[test]
fn empty_line_is_passed_over() {
    assert!(matches!(line_reply("", false), LineAction::Skip));
}

#[test]
fn lines_answered_at_once() {
    assert_eq!(answer(line_reply(r#"{"cmd":"ping"}"#, false)), make_response_ok("pong"));
    assert_eq!(
        answer(line_reply(r#"{"cmd":"open","device":"mobile"}"#, true)),
        make_response_error("Browser is already open")
    );
    assert_eq!(answer(line_reply(r#"{"cmd":"run","sequence_json":"{}"}"#, false)), make_response_error("Browser is not open"));
    assert_eq!(answer(line_reply(r#"{"cmd":"close"}"#, false)), make_response_ok("Browser is already closed"));
    assert_eq!(answer(line_reply(r#"{"cmd":"fly"}"#, false)), unknown_command_reply());
    assert_eq!(answer(line_reply("[1,2]", false)), unknown_command_reply());
    assert_eq!(answer(line_reply(r#"{"cmd":"open"}"#, false)), unknown_command_reply());
}

#[test]
fn line_that_is_not_json_gets_the_parse_error() {
    let line = "{not json";
    let err = serde_json::from_str::<serde_json::Value>(line).unwrap_err().to_string();
    assert!(!err.is_empty());
    assert_eq!(answer(line_reply(line, false)), bad_json_reply(&err));
    assert!(answer(line_reply(line, false)).starts_with(r#"{"status":"error","message":"JSON parsing error: "#));
}

#[test]
fn lines_that_need_the_browser_are_performed() {
    match line_reply(r#"{"headless":true,"device":"mobile","cmd":"open"}"#, false) {
        LineAction::Perform(RunnerCommand::Open { device, headless }) => {
            assert_eq!(device, "mobile");
            assert_eq!(headless, Some(true));
        },
        other => panic!("{:?}", other),
    }
    match line_reply(r#"{"cmd":"run","sequence_json":"{}","n":1.5,"keyword":"k"}"#, true) {
        LineAction::Perform(RunnerCommand::Run { sequence_json, keyword }) => {
            assert_eq!(sequence_json, "{}");
            assert_eq!(keyword, Some(s("k")));
        },
        other => panic!("{:?}", other),
    }
    assert!(matches!(line_reply(r#"{"cmd":"shutdown"}"#, false), LineAction::Perform(RunnerCommand::Shutdown)));
    assert!(matches!(line_reply(r#"{"cmd":"close"}"#, true), LineAction::Perform(RunnerCommand::Close)));
}

#[test]
fn parsed_values_are_acted_on() {
    assert_eq!(answer(action_for_parsed(Err(s("eof")), false)), bad_json_reply("eof"));
    let v = obj(vec![("cmd", JsonValue::Str(s("stop")))]);
    assert!(matches!(action_for_parsed(Ok(v), false), LineAction::Perform(RunnerCommand::Stop)));
    assert_eq!(answer(action_for_parsed(Ok(JsonValue::Null), true)), unknown_command_reply());
}
