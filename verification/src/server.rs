//! The browser runner's protocol: the commands it reads (one JSON object
//! per line), the JSON replies it writes, and what it answers to each
//! command given the outcome of the browser work.
use vstd::prelude::*;
use crate::browser::DeviceType;
use crate::keys::{sorted_keys, strictly_sorted, strs};
use crate::map::{StrMap, lemma_text_map_insert};
use crate::text::{str_eq, usize_to_string, dec_string};

verus! {

// ---------------------------------------------------------------------
// JSON text
// ---------------------------------------------------------------------

/// A lowercase hexadecimal digit.
pub open spec fn hex_digit(d: int) -> char {
    if d < 10 {
        (48 + d) as char
    } else {
        (87 + d) as char
    }
}

/// How one character appears inside a JSON string: `"` and `\` behind a
/// backslash; backspace, tab, line feed, form feed and carriage return as
/// `\b \t \n \f \r`; other characters below U+0020 as `\u00xx`; the rest
/// as themselves.
pub open spec fn escaped_char(c: char) -> Seq<char> {
    if c == '"' {
        seq!['\\', '"']
    } else if c == '\\' {
        seq!['\\', '\\']
    } else if c == '\x08' {
        seq!['\\', 'b']
    } else if c == '\t' {
        seq!['\\', 't']
    } else if c == '\n' {
        seq!['\\', 'n']
    } else if c == '\x0c' {
        seq!['\\', 'f']
    } else if c == '\r' {
        seq!['\\', 'r']
    } else if (c as int) < 0x20 {
        seq!['\\', 'u', '0', '0', hex_digit((c as int) / 16), hex_digit((c as int) % 16)]
    } else {
        seq![c]
    }
}

/// The characters of `s`, each as it appears inside a JSON string.
pub open spec fn escaped(s: Seq<char>) -> Seq<char>
    decreases s.len(),
{
    if s.len() == 0 {
        Seq::empty()
    } else {
        escaped(s.drop_last()) + escaped_char(s.last())
    }
}

/// A JSON string literal holding `s`.
pub open spec fn quoted(s: Seq<char>) -> Seq<char> {
    seq!['"'] + escaped(s) + seq!['"']
}

/// `serde_json::to_string` on a string: the compact serialiser writes the
/// string in double quotes and escapes each character by the table above
/// (its `ESCAPE` table and `write_char_escape`); serialising a `str` into
/// memory does not fail.
#[verifier::external_body]
fn json_string(s: &str) -> (r: String)
    ensures
        r@ == quoted(s@),
{
    serde_json::to_string(s).unwrap_or_default()
}

/// The elements of `items`, comma-separated.
pub open spec fn joined(items: Seq<Seq<char>>) -> Seq<char>
    decreases items.len(),
{
    if items.len() == 0 {
        Seq::empty()
    } else if items.len() == 1 {
        items[0]
    } else {
        joined(items.drop_last()) + ","@ + items.last()
    }
}

/// A JSON array of strings.
pub open spec fn string_array(items: Seq<Seq<char>>) -> Seq<char> {
    "["@ + joined(items.map_values(|s: Seq<char>| quoted(s))) + "]"@
}

/// A JSON object of string fields, in order.
pub open spec fn string_object(fields: Seq<(String, String)>) -> Seq<char> {
    "{"@ + joined(fields.map_values(|p: (String, String)| quoted(p.0@) + ":"@ + quoted(p.1@))) + "}"@
}

/// A JSON array of string objects.
pub open spec fn object_array(rows: Seq<StrMap<String>>) -> Seq<char> {
    "["@ + joined(rows.map_values(|r: StrMap<String>| string_object(r.entries()))) + "]"@
}

fn join_into(out: &mut String, parts: &Vec<String>)
    ensures
        final(out)@ == old(out)@ + joined(strs(parts@)),
{
    let ghost ps = strs(parts@);
    let mut i: usize = 0;
    while i < parts.len()
        invariant
            i <= parts@.len(),
            ps == strs(parts@),
            out@ == old(out)@ + joined(ps.subrange(0, i as int)),
        decreases parts@.len() - i,
    {
        let ghost pre = ps.subrange(0, i as int);
        let ghost nxt = ps.subrange(0, i + 1);
        assert(nxt.drop_last() =~= pre);
        assert(nxt.last() == parts@[i as int]@);
        if i > 0 {
            out.append(",");
        } else {
            assert(pre =~= Seq::<Seq<char>>::empty());
            assert(nxt.len() == 1);
        }
        out.append(parts[i].as_str());
        assert(out@ =~= old(out)@ + joined(nxt));
        i = i + 1;
    }
    assert(ps.subrange(0, parts@.len() as int) =~= ps);
}

/// The JSON array of the strings `items`.
pub fn json_string_array(items: &Vec<String>) -> (r: String)
    ensures
        r@ == string_array(strs(items@)),
{
    let mut parts: Vec<String> = Vec::new();
    let mut i: usize = 0;
    while i < items.len()
        invariant
            i <= items@.len(),
            strs(parts@) == strs(items@).subrange(0, i as int).map_values(|s: Seq<char>| quoted(s)),
        decreases items@.len() - i,
    {
        let q = json_string(items[i].as_str());
        let ghost before = strs(parts@);
        let ghost qv = q@;
        parts.push(q);
        assert(strs(parts@) =~= before.push(qv));
        assert(strs(items@).subrange(0, i + 1) =~= strs(items@).subrange(0, i as int).push(items@[i as int]@));
        assert(strs(parts@) =~= strs(items@).subrange(0, i + 1).map_values(|s: Seq<char>| quoted(s)));
        i = i + 1;
    }
    assert(strs(items@).subrange(0, items@.len() as int) =~= strs(items@));
    let mut r = String::from_str("[");
    join_into(&mut r, &parts);
    r.append("]");
    r
}

/// The JSON object of the string fields of `row`, in order.
pub fn json_object(row: &StrMap<String>) -> (r: String)
    ensures
        r@ == string_object(row.entries()),
{
    let ghost e = row.entries();
    let mut parts: Vec<String> = Vec::new();
    let n = row.len();
    let mut i: usize = 0;
    while i < n
        invariant
            i <= n,
            n == e.len(),
            e == row.entries(),
            strs(parts@) == e.subrange(0, i as int).map_values(
                |p: (String, String)| quoted(p.0@) + ":"@ + quoted(p.1@),
            ),
        decreases n - i,
    {
        let (k, v) = row.entry(i);
        let mut f = json_string(k.as_str());
        f.append(":");
        let q = json_string(v.as_str());
        f.append(q.as_str());
        let ghost before = strs(parts@);
        let ghost fv = f@;
        parts.push(f);
        assert(strs(parts@) =~= before.push(fv));
        assert(e.subrange(0, i + 1) =~= e.subrange(0, i as int).push(e[i as int]));
        assert(strs(parts@) =~= e.subrange(0, i + 1).map_values(
            |p: (String, String)| quoted(p.0@) + ":"@ + quoted(p.1@),
        ));
        i = i + 1;
    }
    assert(e.subrange(0, n as int) =~= e);
    let mut r = String::from_str("{");
    join_into(&mut r, &parts);
    r.append("}");
    r
}

/// The JSON array of the string objects `rows`.
pub fn json_object_array(rows: &Vec<StrMap<String>>) -> (r: String)
    ensures
        r@ == object_array(rows@),
{
    let mut parts: Vec<String> = Vec::new();
    let mut i: usize = 0;
    while i < rows.len()
        invariant
            i <= rows@.len(),
            strs(parts@) == rows@.subrange(0, i as int).map_values(|r: StrMap<String>| string_object(r.entries())),
        decreases rows@.len() - i,
    {
        let o = json_object(&rows[i]);
        let ghost before = strs(parts@);
        let ghost ov = o@;
        parts.push(o);
        assert(strs(parts@) =~= before.push(ov));
        assert(rows@.subrange(0, i + 1) =~= rows@.subrange(0, i as int).push(rows@[i as int]));
        assert(strs(parts@) =~= rows@.subrange(0, i + 1).map_values(
            |r: StrMap<String>| string_object(r.entries()),
        ));
        i = i + 1;
    }
    assert(rows@.subrange(0, rows@.len() as int) =~= rows@);
    let mut r = String::from_str("[");
    join_into(&mut r, &parts);
    r.append("]");
    r
}

// ---------------------------------------------------------------------
// Replies
// ---------------------------------------------------------------------

/// A reply: `{"status":…,"message":…}`.
pub open spec fn reply(status: Seq<char>, message: Seq<char>) -> Seq<char> {
    "{\"status\":"@ + quoted(status) + ",\"message\":"@ + quoted(message) + "}"@
}

/// A reply with log lines: `{"status":…,"message":…,"logs":[…]}`.
pub open spec fn reply_with_logs(status: Seq<char>, message: Seq<char>, logs: Seq<Seq<char>>) -> Seq<char> {
    "{\"status\":"@ + quoted(status) + ",\"message\":"@ + quoted(message) + ",\"logs\":"@ + string_array(logs)
        + "}"@
}

/// A reply with result rows: `{"status":"ok","message":…,"data":[…],"logs":[…]}`.
pub open spec fn reply_with_data(message: Seq<char>, data: Seq<StrMap<String>>, logs: Seq<Seq<char>>) -> Seq<char> {
    "{\"status\":"@ + quoted("ok"@) + ",\"message\":"@ + quoted(message) + ",\"data\":"@ + object_array(data)
        + ",\"logs\":"@ + string_array(logs) + "}"@
}

/// The reply with a status and a message.
pub fn make_response(status: &str, message: &str) -> (r: String)
    ensures
        r@ == reply(status@, message@),
{
    let mut r = String::from_str("{\"status\":");
    let s = json_string(status);
    r.append(s.as_str());
    r.append(",\"message\":");
    let m = json_string(message);
    r.append(m.as_str());
    r.append("}");
    r
}

/// The reply with a status, a message and log lines.
pub fn make_response_with_logs(status: &str, message: &str, logs: &Vec<String>) -> (r: String)
    ensures
        r@ == reply_with_logs(status@, message@, strs(logs@)),
{
    let mut r = String::from_str("{\"status\":");
    let s = json_string(status);
    r.append(s.as_str());
    r.append(",\"message\":");
    let m = json_string(message);
    r.append(m.as_str());
    r.append(",\"logs\":");
    let l = json_string_array(logs);
    r.append(l.as_str());
    r.append("}");
    r
}

/// A success reply.
pub fn make_response_ok(message: &str) -> (r: String)
    ensures
        r@ == reply("ok"@, message@),
{
    make_response("ok", message)
}

/// A success reply with log lines.
pub fn make_response_ok_with_logs(message: &str, logs: &Vec<String>) -> (r: String)
    ensures
        r@ == reply_with_logs("ok"@, message@, strs(logs@)),
{
    make_response_with_logs("ok", message, logs)
}

/// An error reply.
pub fn make_response_error(message: &str) -> (r: String)
    ensures
        r@ == reply("error"@, message@),
{
    make_response("error", message)
}

/// An error reply with log lines.
pub fn make_response_error_with_logs(message: &str, logs: &Vec<String>) -> (r: String)
    ensures
        r@ == reply_with_logs("error"@, message@, strs(logs@)),
{
    make_response_with_logs("error", message, logs)
}

/// The success reply of a run, with its rows and log lines.
pub fn make_response_with_data(message: &str, data: &Vec<StrMap<String>>, logs: &Vec<String>) -> (r: String)
    ensures
        r@ == reply_with_data(message@, data@, strs(logs@)),
{
    let mut r = String::from_str("{\"status\":");
    let s = json_string("ok");
    r.append(s.as_str());
    r.append(",\"message\":");
    let m = json_string(message);
    r.append(m.as_str());
    r.append(",\"data\":");
    let d = json_object_array(data);
    r.append(d.as_str());
    r.append(",\"logs\":");
    let l = json_string_array(logs);
    r.append(l.as_str());
    r.append("}");
    r
}

// ---------------------------------------------------------------------
// Commands
// ---------------------------------------------------------------------

/// A JSON value as the runner reads it; a number keeps its text.
#[derive(Debug)]
pub enum JsonValue {
    Null,
    Bool(bool),
    Number(String),
    Str(String),
    Array(Vec<JsonValue>),
    Object(Vec<(String, JsonValue)>),
}

/// The value of the first field `key` among `e[i..]`.
pub open spec fn field_from(e: Seq<(String, JsonValue)>, key: Seq<char>, i: int) -> Option<JsonValue>
    decreases e.len() - i,
{
    if i < 0 || i >= e.len() {
        None
    } else if e[i].0@ == key {
        Some(e[i].1)
    } else {
        field_from(e, key, i + 1)
    }
}

/// The field `key` of an object; none for other values.
pub open spec fn get_field(v: JsonValue, key: Seq<char>) -> Option<JsonValue> {
    match v {
        JsonValue::Object(e) => field_from(e@, key, 0),
        _ => None,
    }
}

/// The text of a string value.
pub open spec fn str_of(v: Option<JsonValue>) -> Option<Seq<char>> {
    match v {
        Some(JsonValue::Str(s)) => Some(s@),
        _ => None,
    }
}

/// The truth value of a boolean value.
pub open spec fn bool_of(v: Option<JsonValue>) -> Option<bool> {
    match v {
        Some(JsonValue::Bool(b)) => Some(b),
        _ => None,
    }
}

/// The string fields among `e[..n]`, a later field of a name winning.
pub open spec fn string_fields(e: Seq<(String, JsonValue)>, n: int) -> Map<Seq<char>, Seq<char>>
    decreases n,
{
    if n <= 0 || n > e.len() {
        Map::empty()
    } else {
        match e[n - 1].1 {
            JsonValue::Str(s) => string_fields(e, n - 1).insert(e[n - 1].0@, s@),
            _ => string_fields(e, n - 1),
        }
    }
}

/// The string fields of an object value; none for other values.
pub open spec fn inputs_of(v: Option<JsonValue>) -> Map<Seq<char>, Seq<char>> {
    match v {
        Some(JsonValue::Object(e)) => string_fields(e@, e@.len() as int),
        _ => Map::empty(),
    }
}

/// A command to the browser runner.
#[derive(Debug)]
pub enum RunnerCommand {
    /// Open the shared browser.
    Open { device: String, headless: Option<bool> },
    /// Run a sequence in the shared browser.
    Run { sequence_json: String, keyword: Option<String> },
    /// Run a sequence in a browser of its own, from a start page, with inputs.
    RunSequence { sequence_json: String, start_url: String, device: String, headless: bool, inputs: StrMap<String> },
    Close,
    Ping,
    Stop,
    Shutdown,
}

/// A command as values.
pub ghost enum CommandSpec {
    Open { device: Seq<char>, headless: Option<bool> },
    Run { sequence_json: Seq<char>, keyword: Option<Seq<char>> },
    RunSequence {
        sequence_json: Seq<char>,
        start_url: Seq<char>,
        device: Seq<char>,
        headless: bool,
        inputs: Map<Seq<char>, Seq<char>>,
    },
    Close,
    Ping,
    Stop,
    Shutdown,
}

pub open spec fn opt_text(o: Option<String>) -> Option<Seq<char>> {
    match o {
        Some(s) => Some(s@),
        None => None,
    }
}

impl View for RunnerCommand {
    type V = CommandSpec;

    open spec fn view(&self) -> CommandSpec {
        match self {
            RunnerCommand::Open { device, headless } => CommandSpec::Open { device: device@, headless: *headless },
            RunnerCommand::Run { sequence_json, keyword } => CommandSpec::Run {
                sequence_json: sequence_json@,
                keyword: opt_text(*keyword),
            },
            RunnerCommand::RunSequence { sequence_json, start_url, device, headless, inputs } => CommandSpec::RunSequence {
                sequence_json: sequence_json@,
                start_url: start_url@,
                device: device@,
                headless: *headless,
                inputs: inputs.texts(),
            },
            RunnerCommand::Close => CommandSpec::Close,
            RunnerCommand::Ping => CommandSpec::Ping,
            RunnerCommand::Stop => CommandSpec::Stop,
            RunnerCommand::Shutdown => CommandSpec::Shutdown,
        }
    }
}

/// The command a JSON object holds: its `cmd` names the command, and the
/// command's fields are read from the object (`open` needs `device`;
/// `run` needs `sequence_json`; `run_sequence` needs `sequence_json` and
/// `start_url`, its `device` defaulting to `desktop`, `headless` to false
/// and `inputs` to none). None for anything else.
pub open spec fn command_of(j: JsonValue) -> Option<CommandSpec> {
    match str_of(get_field(j, "cmd"@)) {
        None => None,
        Some(c) => if c == "open"@ {
            match str_of(get_field(j, "device"@)) {
                Some(d) => Some(CommandSpec::Open { device: d, headless: bool_of(get_field(j, "headless"@)) }),
                None => None,
            }
        } else if c == "run"@ {
            match str_of(get_field(j, "sequence_json"@)) {
                Some(sj) => Some(CommandSpec::Run { sequence_json: sj, keyword: str_of(get_field(j, "keyword"@)) }),
                None => None,
            }
        } else if c == "run_sequence"@ {
            match (str_of(get_field(j, "sequence_json"@)), str_of(get_field(j, "start_url"@))) {
                (Some(sj), Some(u)) => Some(
                    CommandSpec::RunSequence {
                        sequence_json: sj,
                        start_url: u,
                        device: match str_of(get_field(j, "device"@)) {
                            Some(d) => d,
                            None => "desktop"@,
                        },
                        headless: match bool_of(get_field(j, "headless"@)) {
                            Some(b) => b,
                            None => false,
                        },
                        inputs: inputs_of(get_field(j, "inputs"@)),
                    },
                ),
                _ => None,
            }
        } else if c == "close"@ {
            Some(CommandSpec::Close)
        } else if c == "ping"@ {
            Some(CommandSpec::Ping)
        } else if c == "stop"@ {
            Some(CommandSpec::Stop)
        } else if c == "shutdown"@ {
            Some(CommandSpec::Shutdown)
        } else {
            None
        },
    }
}

fn json_get<'a>(v: &'a JsonValue, key: &str) -> (r: Option<&'a JsonValue>)
    ensures
        match r {
            Some(x) => get_field(*v, key@) == Some(*x),
            None => get_field(*v, key@) is None,
        },
{
    match v {
        JsonValue::Object(e) => {
            let mut i: usize = 0;
            while i < e.len()
                invariant
                    i <= e@.len(),
                    get_field(*v, key@) == field_from(e@, key@, 0),
                    field_from(e@, key@, i as int) == field_from(e@, key@, 0),
                decreases e@.len() - i,
            {
                if str_eq(e[i].0.as_str(), key) {
                    return Some(&e[i].1);
                }
                i = i + 1;
            }
            None
        },
        _ => None,
    }
}

fn get_str(v: &JsonValue, key: &str) -> (r: Option<String>)
    ensures
        opt_text(r) == str_of(get_field(*v, key@)),
{
    match json_get(v, key) {
        Some(JsonValue::Str(s)) => Some(s.clone()),
        _ => None,
    }
}

fn get_bool(v: &JsonValue, key: &str) -> (r: Option<bool>)
    ensures
        r == bool_of(get_field(*v, key@)),
{
    match json_get(v, key) {
        Some(JsonValue::Bool(b)) => Some(*b),
        _ => None,
    }
}

fn get_inputs(v: &JsonValue) -> (r: StrMap<String>)
    ensures
        r.texts() == inputs_of(get_field(*v, "inputs"@)),
{
    let mut r: StrMap<String> = StrMap::new();
    match json_get(v, "inputs") {
        Some(JsonValue::Object(e)) => {
            let mut i: usize = 0;
            assert(r.texts() =~= string_fields(e@, 0));
            while i < e.len()
                invariant
                    i <= e@.len(),
                    r.texts() == string_fields(e@, i as int),
                decreases e@.len() - i,
            {
                if let JsonValue::Str(s) = &e[i].1 {
                    proof {
                        lemma_text_map_insert(r@, e@[i as int].0@, *s);
                    }
                    r.insert(e[i].0.clone(), s.clone());
                }
                i = i + 1;
            }
        },
        _ => {
            assert(r.texts() =~= Map::<Seq<char>, Seq<char>>::empty());
        },
    }
    r
}

/// The command a JSON object holds, or none.
pub fn parse_command(j: &JsonValue) -> (r: Option<RunnerCommand>)
    ensures
        match r {
            Some(c) => command_of(*j) == Some(c@),
            None => command_of(*j) is None,
        },
{
    let c = match get_str(j, "cmd") {
        Some(c) => c,
        None => {
            return None;
        },
    };
    if str_eq(c.as_str(), "open") {
        match get_str(j, "device") {
            Some(d) => Some(RunnerCommand::Open { device: d, headless: get_bool(j, "headless") }),
            None => None,
        }
    } else if str_eq(c.as_str(), "run") {
        match get_str(j, "sequence_json") {
            Some(sj) => Some(RunnerCommand::Run { sequence_json: sj, keyword: get_str(j, "keyword") }),
            None => None,
        }
    } else if str_eq(c.as_str(), "run_sequence") {
        match (get_str(j, "sequence_json"), get_str(j, "start_url")) {
            (Some(sj), Some(u)) => {
                let device = match get_str(j, "device") {
                    Some(d) => d,
                    None => String::from_str("desktop"),
                };
                let headless = match get_bool(j, "headless") {
                    Some(b) => b,
                    None => false,
                };
                Some(
                    RunnerCommand::RunSequence {
                        sequence_json: sj,
                        start_url: u,
                        device,
                        headless,
                        inputs: get_inputs(j),
                    },
                )
            },
            _ => None,
        }
    } else if str_eq(c.as_str(), "close") {
        Some(RunnerCommand::Close)
    } else if str_eq(c.as_str(), "ping") {
        Some(RunnerCommand::Ping)
    } else if str_eq(c.as_str(), "stop") {
        Some(RunnerCommand::Stop)
    } else if str_eq(c.as_str(), "shutdown") {
        Some(RunnerCommand::Shutdown)
    } else {
        None
    }
}

/// `str::to_lowercase`, by Unicode's case mapping.
pub uninterp spec fn lowercase(s: Seq<char>) -> Seq<char>;

/// `str::to_lowercase`: its result is named, not stated.
#[verifier::external_body]
fn to_lower(s: &str) -> (r: String)
    ensures
        r@ == lowercase(s@),
{
    s.to_lowercase()
}

/// The device a command names: mobile when its name in lowercase is
/// `mobile`, else desktop.
pub fn device_type_of(device: &str) -> (d: DeviceType)
    ensures
        d == if lowercase(device@) == "mobile"@ {
            DeviceType::Mobile
        } else {
            DeviceType::Desktop
        },
{
    let l = to_lower(device);
    if str_eq(l.as_str(), "mobile") {
        DeviceType::Mobile
    } else {
        DeviceType::Desktop
    }
}

// ---------------------------------------------------------------------
// Answers
// ---------------------------------------------------------------------

/// `true` or `false`.
pub open spec fn bool_text(b: bool) -> Seq<char> {
    if b {
        "true"@
    } else {
        "false"@
    }
}

fn bool_str(b: bool) -> (r: &'static str)
    ensures
        r@ == bool_text(b),
{
    if b {
        "true"
    } else {
        "false"
    }
}

fn log_line(logs: &mut Vec<String>, line: String)
    ensures
        strs(final(logs)@) == strs(old(logs)@).push(line@),
{
    let ghost before = strs(logs@);
    logs.push(line);
    assert(strs(logs@) =~= before.push(line@));
}

/// The answer to a command that needs no browser work, given whether the
/// shared browser is open: `ping` is answered `pong`; `open` is refused
/// when a browser is open, `run` when none is; `close` with none open is
/// already done. None when the command needs browser work.
pub open spec fn immediate_spec(c: CommandSpec, browser_open: bool) -> Option<Seq<char>> {
    match c {
        CommandSpec::Ping => Some(reply("ok"@, "pong"@)),
        CommandSpec::Open { .. } => if browser_open {
            Some(reply("error"@, "Browser is already open"@))
        } else {
            None
        },
        CommandSpec::Run { .. } => if !browser_open {
            Some(reply("error"@, "Browser is not open"@))
        } else {
            None
        },
        CommandSpec::Close => if !browser_open {
            Some(reply("ok"@, "Browser is already closed"@))
        } else {
            None
        },
        _ => None,
    }
}

/// The answer to a command that needs no browser work (see
/// `immediate_spec`).
pub fn immediate_reply(cmd: &RunnerCommand, browser_open: bool) -> (r: Option<String>)
    ensures
        opt_text(r) == immediate_spec(cmd@, browser_open),
{
    match cmd {
        RunnerCommand::Ping => Some(make_response_ok("pong")),
        RunnerCommand::Open { .. } => if browser_open {
            Some(make_response_error("Browser is already open"))
        } else {
            None
        },
        RunnerCommand::Run { .. } => if !browser_open {
            Some(make_response_error("Browser is not open"))
        } else {
            None
        },
        RunnerCommand::Close => if !browser_open {
            Some(make_response_ok("Browser is already closed"))
        } else {
            None
        },
        _ => None,
    }
}

/// The log line when the driver has to be started again.
pub fn driver_dead_line() -> (r: String)
    ensures
        r@ == "⚠️ chromedriver is dead, restarting..."@,
{
    String::from_str("⚠️ chromedriver is dead, restarting...")
}

/// The reply when the driver could not be started.
pub fn driver_failed_reply(logs: &Vec<String>) -> (r: String)
    ensures
        r@ == reply_with_logs("error"@, "Failed to start chromedriver"@, strs(logs@)),
{
    make_response_error_with_logs("Failed to start chromedriver", logs)
}

/// The message of an opened browser.
pub open spec fn opened_message(device: Seq<char>, headless: bool) -> Seq<char> {
    device + " browser opened (headless="@ + bool_text(headless) + ")"@
}

/// The reply to `open` once the browser work is done: the browser opened
/// (with the error of its first page load, if any), or the error that
/// kept it from opening.
pub fn open_reply(device: &str, headless: bool, opened: Result<Option<String>, String>, logs: &mut Vec<String>) -> (r: String)
    ensures
        match opened {
            Ok(init) => {
                &&& strs(final(logs)@) == strs(old(logs)@) + match init {
                    Some(e) => seq!["⚠️ Initial page load failed: "@ + e@],
                    None => Seq::<Seq<char>>::empty(),
                } + seq!["✅ "@ + opened_message(device@, headless)]
                &&& r@ == reply_with_logs("ok"@, opened_message(device@, headless), strs(final(logs)@))
            },
            Err(e) => {
                &&& strs(final(logs)@) == strs(old(logs)@).push("❌ Failed to open browser: "@ + e@)
                &&& r@ == reply_with_logs("error"@, "Failed to open browser: "@ + e@, strs(final(logs)@))
            },
        },
{
    match opened {
        Ok(init) => {
            let ghost start = strs(logs@);
            match &init {
                Some(e) => {
                    let mut l = String::from_str("⚠️ Initial page load failed: ");
                    l.append(e.as_str());
                    log_line(logs, l);
                },
                None => {},
            }
            let ghost mid = strs(logs@);
            let mut msg = String::from_str(device);
            msg.append(" browser opened (headless=");
            msg.append(bool_str(headless));
            msg.append(")");
            let mut l = String::from_str("✅ ");
            l.append(msg.as_str());
            log_line(logs, l);
            assert(mid =~= start + match init {
                Some(e) => seq!["⚠️ Initial page load failed: "@ + e@],
                None => Seq::<Seq<char>>::empty(),
            });
            make_response_ok_with_logs(msg.as_str(), logs)
        },
        Err(e) => {
            let mut l = String::from_str("❌ Failed to open browser: ");
            l.append(e.as_str());
            log_line(logs, l);
            let mut m = String::from_str("Failed to open browser: ");
            m.append(e.as_str());
            make_response_error_with_logs(m.as_str(), logs)
        },
    }
}

/// The reply when the sequence text is not a sequence.
pub fn parse_error_reply(error: &str) -> (r: String)
    ensures
        r@ == reply("error"@, "Sequence parsing error: "@ + error@),
{
    let mut m = String::from_str("Sequence parsing error: ");
    m.append(error);
    make_response_error(m.as_str())
}

/// The log line that starts a run in the shared browser; the keyword
/// defaults to `test`.
pub fn run_start_line(name: &str, keyword: &Option<String>, handlers: usize) -> (r: String)
    ensures
        r@ == "▶️ Starting execution of sequence '"@ + name@ + "' (keyword: "@ + match *keyword {
            Some(k) => k@,
            None => "test"@,
        } + ", "@ + dec_string(handlers as nat) + " handlers)"@,
{
    let mut l = String::from_str("▶️ Starting execution of sequence '");
    l.append(name);
    l.append("' (keyword: ");
    match keyword {
        Some(k) => l.append(k.as_str()),
        None => l.append("test"),
    }
    l.append(", ");
    let n = usize_to_string(handlers);
    l.append(n.as_str());
    l.append(" handlers)");
    l
}

/// The message of a completed run.
pub open spec fn completed_message(name: Seq<char>, n: nat) -> Seq<char> {
    "Sequence '"@ + name + "' execution completed ("@ + dec_string(n) + " results)"@
}

/// The log line of a completed run.
pub open spec fn completed_line(name: Seq<char>, n: nat) -> Seq<char> {
    "✅ Sequence '"@ + name + "' completed ("@ + dec_string(n) + " results)"@
}

/// The log line of a failed run.
pub open spec fn failed_line(name: Seq<char>, e: Seq<char>) -> Seq<char> {
    "❌ Sequence '"@ + name + "' failed: "@ + e
}

fn failed_reply(name: &str, e: &str, logs: &mut Vec<String>) -> (r: String)
    ensures
        strs(final(logs)@) == strs(old(logs)@).push(failed_line(name@, e@)),
        r@ == reply_with_logs("error"@, "Execution error: "@ + e@, strs(final(logs)@)),
{
    let mut l = String::from_str("❌ Sequence '");
    l.append(name);
    l.append("' failed: ");
    l.append(e);
    log_line(logs, l);
    let mut m = String::from_str("Execution error: ");
    m.append(e);
    make_response_error_with_logs(m.as_str(), logs)
}

fn completed_text(prefix: &str, name: &str, middle: &str, n: usize) -> (r: String)
    ensures
        r@ == prefix@ + name@ + middle@ + dec_string(n as nat) + " results)"@,
{
    let mut l = String::from_str(prefix);
    l.append(name);
    l.append(middle);
    let k = usize_to_string(n);
    l.append(k.as_str());
    l.append(" results)");
    l
}

/// The reply to a run in the shared browser: the number of rows it found,
/// or the error that stopped it.
pub fn run_reply(name: &str, result: Result<usize, String>, logs: &mut Vec<String>) -> (r: String)
    ensures
        match result {
            Ok(n) => {
                &&& strs(final(logs)@) == strs(old(logs)@).push(completed_line(name@, n as nat))
                &&& r@ == reply_with_logs("ok"@, completed_message(name@, n as nat), strs(final(logs)@))
            },
            Err(e) => {
                &&& strs(final(logs)@) == strs(old(logs)@).push(failed_line(name@, e@))
                &&& r@ == reply_with_logs("error"@, "Execution error: "@ + e@, strs(final(logs)@))
            },
        },
{
    match result {
        Ok(n) => {
            let l = completed_text("✅ Sequence '", name, "' completed (", n);
            log_line(logs, l);
            let m = completed_text("Sequence '", name, "' execution completed (", n);
            make_response_ok_with_logs(m.as_str(), logs)
        },
        Err(e) => failed_reply(name, e.as_str(), logs),
    }
}

/// `format!("{:?}", s)` for a string: Rust's debug quoting.
pub uninterp spec fn debug_quoted(s: Seq<char>) -> Seq<char>;

/// `<str as Debug>::fmt` through `format!`: its result is named, not stated.
#[verifier::external_body]
fn debug_str(s: &str) -> (r: String)
    ensures
        r@ == debug_quoted(s@),
{
    format!("{:?}", s)
}

/// The debug list of some texts: `["a", "b"]`.
pub open spec fn debug_list(items: Seq<Seq<char>>) -> Seq<char> {
    "["@ + joined_with(items.map_values(|s: Seq<char>| debug_quoted(s)), ", "@) + "]"@
}

/// The elements of `items`, separated by `sep`.
pub open spec fn joined_with(items: Seq<Seq<char>>, sep: Seq<char>) -> Seq<char>
    decreases items.len(),
{
    if items.len() == 0 {
        Seq::empty()
    } else if items.len() == 1 {
        items[0]
    } else {
        joined_with(items.drop_last(), sep) + sep + items.last()
    }
}

/// The log lines that start a run in a browser of its own.
pub open spec fn run_sequence_lines(
    name: Seq<char>,
    url: Seq<char>,
    device: Seq<char>,
    headless: bool,
    handlers: nat,
    input_keys: Seq<Seq<char>>,
) -> Seq<Seq<char>> {
    seq![
        "🚀 Starting execution of sequence '"@ + name + "'"@,
        "   📍 URL: "@ + url,
        "   📱 Device: "@ + device + " (headless="@ + bool_text(headless) + ")"@,
        "   📝 Handlers: "@ + dec_string(handlers),
    ] + if input_keys.len() > 0 {
        seq!["   🔑 Inputs: "@ + debug_list(input_keys)]
    } else {
        Seq::<Seq<char>>::empty()
    }
}

/// The log lines that start a run in a browser of its own: the sequence,
/// the start page, the device, the number of handlers, and the input keys
/// when there are any.
pub fn run_sequence_start(
    name: &str,
    url: &str,
    device: &str,
    headless: bool,
    handlers: usize,
    inputs: &StrMap<String>,
    logs: &mut Vec<String>,
)
    ensures
        strs(final(logs)@) == strs(old(logs)@) + run_sequence_lines(
            name@,
            url@,
            device@,
            headless,
            handlers as nat,
            inputs.key_seq(),
        ),
{
    let ghost start = strs(logs@);
    let mut l1 = String::from_str("🚀 Starting execution of sequence '");
    l1.append(name);
    l1.append("'");
    log_line(logs, l1);
    let mut l2 = String::from_str("   📍 URL: ");
    l2.append(url);
    log_line(logs, l2);
    let mut l3 = String::from_str("   📱 Device: ");
    l3.append(device);
    l3.append(" (headless=");
    l3.append(bool_str(headless));
    l3.append(")");
    log_line(logs, l3);
    let mut l4 = String::from_str("   📝 Handlers: ");
    let n = usize_to_string(handlers);
    l4.append(n.as_str());
    log_line(logs, l4);
    let ghost mid = strs(logs@);
    let ks = inputs.keys();
    let ghost kq = inputs.key_seq();
    assert(strs(ks@) =~= kq);
    if ks.len() > 0 {
        let mut l5 = String::from_str("   🔑 Inputs: ");
        l5.append("[");
        let mut i: usize = 0;
        while i < ks.len()
            invariant
                i <= ks@.len(),
                strs(ks@) == kq,
                l5@ == "   🔑 Inputs: "@ + "["@ + joined_with(
                    kq.subrange(0, i as int).map_values(|s: Seq<char>| debug_quoted(s)),
                    ", "@,
                ),
            decreases ks@.len() - i,
        {
            let ghost pre = kq.subrange(0, i as int).map_values(|s: Seq<char>| debug_quoted(s));
            let ghost nxt = kq.subrange(0, i + 1).map_values(|s: Seq<char>| debug_quoted(s));
            assert(nxt.drop_last() =~= pre);
            assert(nxt.last() == debug_quoted(ks@[i as int]@));
            if i > 0 {
                l5.append(", ");
            } else {
                assert(pre.len() == 0);
            }
            let d = debug_str(ks[i].as_str());
            l5.append(d.as_str());
            assert(l5@ =~= "   🔑 Inputs: "@ + "["@ + joined_with(nxt, ", "@));
            i = i + 1;
        }
        assert(kq.subrange(0, ks@.len() as int) =~= kq);
        l5.append("]");
        assert(l5@ =~= "   🔑 Inputs: "@ + debug_list(kq));
        log_line(logs, l5);
    }
    assert(strs(logs@) =~= start + run_sequence_lines(name@, url@, device@, headless, handlers as nat, kq));
}

/// Whether `row` has a nonempty value under `k`.
pub open spec fn has_value(row: StrMap<String>, k: Seq<char>) -> bool {
    row.texts().contains_key(k) && row.texts()[k].len() > 0
}

/// How many of `rows[..n]` have a nonempty value under `k`.
pub open spec fn rows_with(rows: Seq<StrMap<String>>, k: Seq<char>, n: int) -> nat
    decreases n,
{
    if n <= 0 || n > rows.len() {
        0
    } else {
        rows_with(rows, k, n - 1) + if has_value(rows[n - 1], k) {
            1nat
        } else {
            0nat
        }
    }
}

/// The field names of some statistics.
pub open spec fn stat_keys(stats: Seq<(String, usize)>) -> Seq<Seq<char>> {
    stats.map_values(|p: (String, usize)| p.0@)
}

/// For each field that some row has a nonempty value for, in the order of
/// field names, how many rows have one.
pub open spec fn stats_ok(rows: Seq<StrMap<String>>, stats: Seq<(String, usize)>) -> bool {
    &&& strictly_sorted(stat_keys(stats))
    &&& forall|x: Seq<char>|
        #[trigger] stat_keys(stats).contains(x) <==> exists|i: int|
            0 <= i < rows.len() && #[trigger] has_value(rows[i], x)
    &&& forall|i: int| 0 <= i < stats.len() ==> (#[trigger] stats[i]).1 == rows_with(rows, stats[i].0@, rows.len() as int)
}

fn count_rows_with(rows: &Vec<StrMap<String>>, k: &str) -> (n: usize)
    ensures
        n == rows_with(rows@, k@, rows@.len() as int),
{
    let mut n: usize = 0;
    let mut i: usize = 0;
    while i < rows.len()
        invariant
            i <= rows@.len(),
            n <= i,
            n == rows_with(rows@, k@, i as int),
        decreases rows@.len() - i,
    {
        match rows[i].get(k) {
            Some(v) => {
                if !v.as_str().is_empty() {
                    n = n + 1;
                }
            },
            None => {},
        }
        i = i + 1;
    }
    n
}

/// The fields with a nonempty value, with how many rows have one, in the
/// order of field names.
pub fn field_stats(rows: &Vec<StrMap<String>>) -> (stats: Vec<(String, usize)>)
    ensures
        stats_ok(rows@, stats@),
{
    let mut named: Vec<String> = Vec::new();
    let mut i: usize = 0;
    while i < rows.len()
        invariant
            i <= rows@.len(),
            forall|x: Seq<char>|
                strs(named@).contains(x) <==> exists|ii: int| 0 <= ii < i && #[trigger] has_value(rows@[ii], x),
        decreases rows@.len() - i,
    {
        let row = &rows[i];
        let ks = row.keys();
        let ghost kv = strs(ks@);
        assert(kv =~= ks@.map_values(|s: String| s@));
        let ghost before = strs(named@);
        let mut j: usize = 0;
        while j < ks.len()
            invariant
                j <= ks@.len(),
                row == rows@[i as int],
                kv == strs(ks@),
                forall|k: Seq<char>| #[trigger] row@.contains_key(k) <==> kv.contains(k),
                forall|x: Seq<char>|
                    #[trigger] strs(named@).contains(x) <==> (before.contains(x) || (has_value(*row, x)
                        && kv.subrange(0, j as int).contains(x))),
            decreases ks@.len() - j,
        {
            let k = &ks[j];
            let keep = match row.get(k.as_str()) {
                Some(v) => !v.as_str().is_empty(),
                None => false,
            };
            let ghost b2 = strs(named@);
            if keep {
                named.push(k.clone());
                assert(strs(named@) =~= b2.push(k@));
            }
            assert(keep == has_value(*row, k@));
            assert(kv.subrange(0, j + 1) =~= kv.subrange(0, j as int).push(k@));
            assert forall|x: Seq<char>|
                #[trigger] strs(named@).contains(x) <==> (before.contains(x) || (has_value(*row, x)
                    && kv.subrange(0, j + 1).contains(x))) by {
                let pre = kv.subrange(0, j as int);
                let nxt = kv.subrange(0, j + 1);
                assert(b2.contains(x) <==> (before.contains(x) || (has_value(*row, x) && pre.contains(x))));
                if nxt.contains(x) && !pre.contains(x) {
                    let t = choose|t: int| 0 <= t < nxt.len() && nxt[t] == x;
                    if t < j {
                        assert(pre[t] == x);
                    }
                    assert(x == k@);
                }
                if pre.contains(x) {
                    let t = choose|t: int| 0 <= t < pre.len() && pre[t] == x;
                    assert(nxt[t] == x);
                }
                if keep && x == k@ {
                    assert(strs(named@)[b2.len() as int] == x);
                    assert(nxt[j as int] == x);
                }
                if strs(named@).contains(x) && !b2.contains(x) {
                    let t = choose|t: int| 0 <= t < strs(named@).len() && strs(named@)[t] == x;
                    if t < b2.len() {
                        assert(b2[t] == x);
                    }
                    assert(nxt[j as int] == x);
                }
                if b2.contains(x) {
                    let t = choose|t: int| 0 <= t < b2.len() && b2[t] == x;
                    assert(strs(named@)[t] == x);
                }
            }
            j = j + 1;
        }
        assert(kv.subrange(0, ks@.len() as int) =~= kv);
        assert forall|x: Seq<char>|
            strs(named@).contains(x) <==> exists|ii: int| 0 <= ii < i + 1 && #[trigger] has_value(rows@[ii], x) by {
            if has_value(rows@[i as int], x) {
                assert(row@.contains_key(x));
            }
            if exists|ii: int| 0 <= ii < i + 1 && #[trigger] has_value(rows@[ii], x) {
                let ii = choose|ii: int| 0 <= ii < i + 1 && #[trigger] has_value(rows@[ii], x);
                if ii < i {
                    assert(before.contains(x));
                }
            }
        }
        i = i + 1;
    }
    let none: Vec<String> = Vec::new();
    assert(strs(none@) =~= Seq::<Seq<char>>::empty());
    let keys = sorted_keys(&named, &none);
    let mut stats: Vec<(String, usize)> = Vec::new();
    let mut t: usize = 0;
    while t < keys.len()
        invariant
            t <= keys@.len(),
            stats@.len() == t,
            forall|q: int| 0 <= q < t ==> (#[trigger] stats@[q]).0@ == keys@[q]@,
            forall|q: int| 0 <= q < t ==> (#[trigger] stats@[q]).1 == rows_with(rows@, stats@[q].0@, rows@.len() as int),
        decreases keys@.len() - t,
    {
        let c = count_rows_with(rows, keys[t].as_str());
        stats.push((keys[t].clone(), c));
        t = t + 1;
    }
    assert(stat_keys(stats@) =~= strs(keys@));
    stats
}

/// The log lines of the field statistics.
pub open spec fn stats_lines(stats: Seq<(String, usize)>) -> Seq<Seq<char>> {
    seq!["   📊 Fields extracted:"@] + stats.map_values(
        |p: (String, usize)| "      - "@ + p.0@ + ": "@ + dec_string(p.1 as nat) + " values"@,
    )
}

/// The reply to a run in a browser of its own: the rows it found (logged
/// with field statistics when there are any), or the error that stopped it.
pub fn run_sequence_reply(name: &str, result: Result<Vec<StrMap<String>>, String>, logs: &mut Vec<String>) -> (r: String)
    ensures
        match result {
            Ok(data) => {
                let n = data@.len() as nat;
                &&& exists|stats: Seq<(String, usize)>|
                    stats_ok(data@, stats) && strs(final(logs)@) == strs(old(logs)@).push(completed_line(name@, n))
                        + if n > 0 {
                        stats_lines(stats)
                    } else {
                        Seq::<Seq<char>>::empty()
                    }
                &&& r@ == reply_with_data(completed_message(name@, n), data@, strs(final(logs)@))
            },
            Err(e) => {
                &&& strs(final(logs)@) == strs(old(logs)@).push(failed_line(name@, e@))
                &&& r@ == reply_with_logs("error"@, "Execution error: "@ + e@, strs(final(logs)@))
            },
        },
{
    match result {
        Ok(data) => {
            let l = completed_text("✅ Sequence '", name, "' completed (", data.len());
            log_line(logs, l);
            let ghost after = strs(logs@);
            let stats = field_stats(&data);
            if data.len() > 0 {
                log_line(logs, String::from_str("   📊 Fields extracted:"));
                let mut i: usize = 0;
                while i < stats.len()
                    invariant
                        i <= stats@.len(),
                        strs(logs@) == after + seq!["   📊 Fields extracted:"@] + stats@.subrange(0, i as int).map_values(
                            |p: (String, usize)| "      - "@ + p.0@ + ": "@ + dec_string(p.1 as nat) + " values"@,
                        ),
                    decreases stats@.len() - i,
                {
                    let mut line = String::from_str("      - ");
                    line.append(stats[i].0.as_str());
                    line.append(": ");
                    let c = usize_to_string(stats[i].1);
                    line.append(c.as_str());
                    line.append(" values");
                    let ghost b = strs(logs@);
                    log_line(logs, line);
                    assert(stats@.subrange(0, i + 1) =~= stats@.subrange(0, i as int).push(stats@[i as int]));
                    assert(strs(logs@) =~= after + seq!["   📊 Fields extracted:"@] + stats@.subrange(0, i + 1).map_values(
                        |p: (String, usize)| "      - "@ + p.0@ + ": "@ + dec_string(p.1 as nat) + " values"@,
                    ));
                    i = i + 1;
                }
                assert(stats@.subrange(0, stats@.len() as int) =~= stats@);
                assert(strs(logs@) =~= after + stats_lines(stats@));
            } else {
                assert(strs(logs@) =~= after + Seq::<Seq<char>>::empty());
            }
            let m = completed_text("Sequence '", name, "' execution completed (", data.len());
            make_response_with_data(m.as_str(), &data, logs)
        },
        Err(e) => failed_reply(name, e.as_str(), logs),
    }
}

/// The reply to `stop`: the stop was requested.
pub fn stop_reply(logs: &mut Vec<String>) -> (r: String)
    ensures
        strs(final(logs)@) == strs(old(logs)@).push("⏹️ Stop execution requested"@),
        r@ == reply_with_logs("ok"@, "Stop execution requested"@, strs(final(logs)@)),
{
    log_line(logs, String::from_str("⏹️ Stop execution requested"));
    make_response_ok_with_logs("Stop execution requested", logs)
}

/// The reply to `shutdown`, given whether a browser and a driver were
/// closed on the way.
pub fn shutdown_reply(browser_closed: bool, driver_closed: bool, logs: &mut Vec<String>) -> (r: String)
    ensures
        strs(final(logs)@) == strs(old(logs)@) + seq!["🔴 Shutdown command received, cleaning up..."@] + (if browser_closed {
            seq!["   Browser closed"@]
        } else {
            Seq::<Seq<char>>::empty()
        }) + (if driver_closed {
            seq!["   chromedriver closed"@]
        } else {
            Seq::<Seq<char>>::empty()
        }),
        r@ == reply_with_logs("ok"@, "shutdown complete"@, strs(final(logs)@)),
{
    let ghost start = strs(logs@);
    log_line(logs, String::from_str("🔴 Shutdown command received, cleaning up..."));
    let ghost a = strs(logs@);
    if browser_closed {
        log_line(logs, String::from_str("   Browser closed"));
    }
    let ghost b = strs(logs@);
    assert(b =~= a + if browser_closed {
        seq!["   Browser closed"@]
    } else {
        Seq::<Seq<char>>::empty()
    });
    if driver_closed {
        log_line(logs, String::from_str("   chromedriver closed"));
    }
    assert(strs(logs@) =~= start + seq!["🔴 Shutdown command received, cleaning up..."@] + (if browser_closed {
        seq!["   Browser closed"@]
    } else {
        Seq::<Seq<char>>::empty()
    }) + (if driver_closed {
        seq!["   chromedriver closed"@]
    } else {
        Seq::<Seq<char>>::empty()
    }));
    make_response_ok_with_logs("shutdown complete", logs)
}

/// The reply to `close` once the open browser is closed.
pub fn close_reply(logs: &mut Vec<String>) -> (r: String)
    ensures
        strs(final(logs)@) == strs(old(logs)@).push("🔴 Browser closed"@),
        r@ == reply_with_logs("ok"@, "Browser closed"@, strs(final(logs)@)),
{
    log_line(logs, String::from_str("🔴 Browser closed"));
    make_response_ok_with_logs("Browser closed", logs)
}

/// The reply to a line that is no command.
pub fn unknown_command_reply() -> (r: String)
    ensures
        r@ == reply("error"@, "Unknown command"@),
{
    make_response_error("Unknown command")
}

/// The reply to a line that is not JSON.
pub fn bad_json_reply(error: &str) -> (r: String)
    ensures
        r@ == reply("error"@, "JSON parsing error: "@ + error@),
{
    let mut m = String::from_str("JSON parsing error: ");
    m.append(error);
    make_response_error(m.as_str())
}

// ---------------------------------------------------------------------
// Lines
// ---------------------------------------------------------------------

#[verifier::external_type_specification]
#[verifier::external_body]
pub struct ExSerdeValue(serde_json::Value);

/// What `serde_json::from_str::<serde_json::Value>` makes of a line, the
/// value taken over field by field into `JsonValue` (a number as its
/// text, an object's fields in the order its map gives them), or the
/// text of its error.
pub uninterp spec fn json_parsed(line: Seq<char>) -> Result<JsonValue, Seq<char>>;

/// Takes a `serde_json::Value` over into a `JsonValue`, variant by
/// variant, a number by its `Display` text and an object's fields in the
/// order of its map. No contract is claimed of it: it serves `parse_json`,
/// whose result is named as a whole.
#[verifier::external_body]
fn json_value_from(v: &serde_json::Value) -> (r: JsonValue) {
    match v {
        serde_json::Value::Null => JsonValue::Null,
        serde_json::Value::Bool(b) => JsonValue::Bool(*b),
        serde_json::Value::Number(n) => JsonValue::Number(n.to_string()),
        serde_json::Value::String(t) => JsonValue::Str(t.clone()),
        serde_json::Value::Array(a) => JsonValue::Array(a.iter().map(json_value_from).collect()),
        serde_json::Value::Object(o) => JsonValue::Object(o.iter().map(|(k, x)| (k.clone(), json_value_from(x))).collect()),
    }
}

/// `serde_json::from_str::<serde_json::Value>` on a line. Claimed: the
/// parse depends on the text alone, so its outcome (the value taken over
/// by `json_value_from`, or the `Display` text of the error) is named
/// `json_parsed`; what the parser accepts is not stated.
#[verifier::external_body]
fn parse_json(line: &str) -> (r: Result<JsonValue, String>)
    ensures
        match r {
            Ok(v) => json_parsed(line@) == Ok::<JsonValue, Seq<char>>(v),
            Err(e) => json_parsed(line@) == Err::<JsonValue, Seq<char>>(e@),
        },
{
    match serde_json::from_str::<serde_json::Value>(line) {
        Ok(v) => Ok(json_value_from(&v)),
        Err(e) => Err(e.to_string()),
    }
}

/// What the runner does with one line it reads.
#[derive(Debug)]
pub enum LineAction {
    /// An empty line is passed over.
    Skip,
    /// The line is answered at once with this reply.
    Answer(String),
    /// The line asks for browser work.
    Perform(RunnerCommand),
}

/// A line action as values.
pub ghost enum LineActionSpec {
    Skip,
    Answer(Seq<char>),
    Perform(CommandSpec),
}

impl View for LineAction {
    type V = LineActionSpec;

    open spec fn view(&self) -> LineActionSpec {
        match self {
            LineAction::Skip => LineActionSpec::Skip,
            LineAction::Answer(a) => LineActionSpec::Answer(a@),
            LineAction::Perform(c) => LineActionSpec::Perform(c@),
        }
    }
}

/// What becomes of a parsed line: a parse error is answered with its
/// text, a value that holds no command with `Unknown command`, a command
/// that needs no browser work with its answer; any other command is
/// performed.
pub open spec fn parsed_action(parsed: Result<JsonValue, Seq<char>>, browser_open: bool) -> LineActionSpec {
    match parsed {
        Err(e) => LineActionSpec::Answer(reply("error"@, "JSON parsing error: "@ + e)),
        Ok(j) => match command_of(j) {
            None => LineActionSpec::Answer(reply("error"@, "Unknown command"@)),
            Some(c) => match immediate_spec(c, browser_open) {
                Some(a) => LineActionSpec::Answer(a),
                None => LineActionSpec::Perform(c),
            },
        },
    }
}

/// What the runner does with a line: empty lines are passed over, the
/// rest is parsed as JSON and handled by `parsed_action`.
pub open spec fn line_action(line: Seq<char>, browser_open: bool) -> LineActionSpec {
    if line.len() == 0 {
        LineActionSpec::Skip
    } else {
        parsed_action(json_parsed(line), browser_open)
    }
}

/// The action for the outcome of parsing a line, given whether the shared
/// browser is open.
pub fn action_for_parsed(parsed: Result<JsonValue, String>, browser_open: bool) -> (r: LineAction)
    ensures
        r@ == parsed_action(
            match parsed {
                Ok(j) => Ok::<JsonValue, Seq<char>>(j),
                Err(e) => Err::<JsonValue, Seq<char>>(e@),
            },
            browser_open,
        ),
{
    match parsed {
        Err(e) => LineAction::Answer(bad_json_reply(e.as_str())),
        Ok(j) => match parse_command(&j) {
            None => LineAction::Answer(unknown_command_reply()),
            Some(c) => match immediate_reply(&c, browser_open) {
                Some(a) => LineAction::Answer(a),
                None => LineAction::Perform(c),
            },
        },
    }
}

/// What the runner does with one line it read, given whether the shared
/// browser is open.
pub fn line_reply(line: &str, browser_open: bool) -> (r: LineAction)
    ensures
        r@ == line_action(line@, browser_open),
{
    if line.unicode_len() == 0 {
        LineAction::Skip
    } else {
        action_for_parsed(parse_json(line), browser_open)
    }
}

} // verus!
