//! Executing one action: the browser commands it issues, and the decisions
//! taken on what the browser replies.
use vstd::prelude::*;
use crate::page::{Page, css_texts, css_selector_valid, selector_is_valid};
use crate::text::{starts_with, has_prefix, contains, contains_spec};
use crate::workflow::{
    Action, ExecContext, KeyAction, resolve_text, resolve_u64, resolve_i64,
};

verus! {

/// A browser operation, with every parameter resolved.
#[derive(Debug, PartialEq, Eq)]
pub enum Command {
    /// Whether an element matches, and if so whether the first match is
    /// displayed (`Visible`).
    Visibility { selector: String },
    /// Click the first match.
    ClickFirst { selector: String },
    /// Click the first match; the answer is `Done` whether or not the
    /// click went through.
    TryClickFirst { selector: String },
    Goto { url: String },
    Sleep { ms: u64 },
    /// Whether an element matches (replied with `Found`).
    Probe { selector: String },
    /// Run the scroll-everything script.
    ScrollAll,
    /// The texts of all matches (`Texts`; an unreadable text is `None`).
    ElementTexts { selector: String },
    /// Click the `index`-th element of the last `ElementTexts` reply.
    ClickElement { selector: String, index: usize },
    /// The page's `outerHTML` (`Html`).
    FetchHtml,
    Back,
    Forward,
    Refresh,
    /// The `id`, `name`, `src` of the frame `selector` finds and of every
    /// `iframe` (`Frames`).
    FrameAttributes { selector: String },
    EnterFrame { index: u16 },
    DefaultFrame,
    NewTab,
    /// The number of open windows (`TabCount`).
    CountTabs,
    SwitchTab { index: usize },
    CloseWindow,
    TypeInto { selector: String, text: String },
    PressKey { key: KeyAction },
    ClearAndType { selector: String, text: String },
    /// Scroll the window by `delta` pixels (`Moved`, the pixels moved).
    ScrollBy { delta: i64 },
}

/// The identifying attributes of a frame.
#[derive(Debug, PartialEq, Eq)]
pub struct FrameIds {
    pub id: Option<String>,
    pub name: Option<String>,
    pub src: Option<String>,
}

/// What the browser answered to a command.
#[derive(Debug)]
pub enum Reply {
    Done,
    Found(bool),
    Texts(Vec<Option<String>>),
    Html(String),
    Frames { target: FrameIds, frames: Vec<FrameIds> },
    TabCount(usize),
    Moved(i64),
    /// No element matched, or whether the first match is displayed.
    Visible(Option<bool>),
    /// The command failed with this WebDriver error text.
    Failed(String),
}

/// Why a run stopped with an error.
#[derive(Debug, PartialEq, Eq)]
pub enum RunError {
    /// A browser command failed.
    Browser { message: String },
    /// The stop flag was set while running the named sequence.
    Stopped { sequence: String },
    /// A container ran before any page snapshot was taken.
    NoPage,
    /// A container or extraction selector is not valid CSS.
    InvalidSelector { selector: String },
    /// The `GetHTML` selector is not valid CSS.
    InvalidHtmlSelector { selector: String },
    /// `GetHTML` did not find its selector in any snapshot.
    SelectorNotFound { selector: String },
    /// `WaitFor` did not find its selector.
    WaitTimeout { selector: String },
    /// `Click` found no element for its selector.
    ElementNotFound { selector: String },
    /// `Click` found an element that is not displayed.
    NotVisible { selector: String },
    /// `ClickByText` found no element whose text contains the text.
    TextNotFound { selector: String, text: String },
}

/// What an action waits for after the command it issued.
#[derive(Debug)]
pub enum Pending {
    /// The action is complete once the command is.
    Finish,
    /// `Click`: whether its element is there and displayed.
    ClickTarget { selector: String },
    /// `WaitFor`: the answer to a probe made after `waited` ms of pauses.
    Probe { selector: String, ms: u64, waited: u64 },
    /// `WaitFor`: a pause that brings the time waited to `waited` ms.
    ProbePause { selector: String, ms: u64, waited: u64 },
    /// `ClickByText`: the texts of the candidates.
    TextsFor { selector: String, needle: String },
    /// `GetHTML`: snapshot number `attempts`.
    Fetch { selector: String, ms: u64, attempts: u32 },
    /// `GetHTML`: the pause after snapshot number `attempts`.
    FetchPause { selector: String, ms: u64, attempts: u32 },
    /// `SwitchToFrame`: the frame attributes.
    FrameIds,
    /// `NewTab`: the tab was opened.
    TabOpened { url: String },
    /// `NewTab`: the number of tabs.
    TabsCounted { url: String },
    /// `NewTab`: the switch to the last tab.
    TabSwitched { url: String },
    /// `SwitchTab`: the number of tabs.
    TabsForIndex { index: usize },
    /// `CloseTab` / `SwitchToLastTab`: the number of tabs.
    TabsForLast,
    /// `CloseTab`: the window was closed.
    WindowClosed,
    /// `ScrollDown` / `ScrollUp`: the pixels moved by scroll call `iter`.
    Scrolled { remaining: i64, iter: u32 },
    /// The pause after scroll call `iter`.
    ScrollPause { remaining: i64, iter: u32 },
    /// `DismissPermission`: whether the button of popup selector `index`
    /// is there and displayed.
    DismissLook { index: usize },
    /// `DismissPermission`: the click on the button of selector `index`.
    DismissClicked { index: usize },
    /// `DismissPermission`: the pause after that click.
    DismissPause { index: usize },
}

/// The next move of an action.
pub enum ActStep {
    /// Perform the command; the action then waits as `Pending` says.
    Issue(Command, Pending),
    /// The action is complete; `GetHTML` yields the page it read.
    Complete(Option<Page>),
    /// The action failed.
    Fail(RunError),
}

// ---------------------------------------------------------------------
// Views
// ---------------------------------------------------------------------

pub open spec fn opt_view(o: Option<String>) -> Option<Seq<char>> {
    match o {
        Some(s) => Some(s@),
        None => None,
    }
}

pub ghost enum CommandV {
    Visibility { selector: Seq<char> },
    ClickFirst { selector: Seq<char> },
    TryClickFirst { selector: Seq<char> },
    Goto { url: Seq<char> },
    Sleep { ms: u64 },
    Probe { selector: Seq<char> },
    ScrollAll,
    ElementTexts { selector: Seq<char> },
    ClickElement { selector: Seq<char>, index: usize },
    FetchHtml,
    Back,
    Forward,
    Refresh,
    FrameAttributes { selector: Seq<char> },
    EnterFrame { index: u16 },
    DefaultFrame,
    NewTab,
    CountTabs,
    SwitchTab { index: usize },
    CloseWindow,
    TypeInto { selector: Seq<char>, text: Seq<char> },
    PressKey { key: KeyAction },
    ClearAndType { selector: Seq<char>, text: Seq<char> },
    ScrollBy { delta: i64 },
}

impl View for Command {
    type V = CommandV;

    open spec fn view(&self) -> CommandV {
        match self {
            Command::Visibility { selector } => CommandV::Visibility { selector: selector@ },
            Command::ClickFirst { selector } => CommandV::ClickFirst { selector: selector@ },
            Command::TryClickFirst { selector } => CommandV::TryClickFirst { selector: selector@ },
            Command::Goto { url } => CommandV::Goto { url: url@ },
            Command::Sleep { ms } => CommandV::Sleep { ms: *ms },
            Command::Probe { selector } => CommandV::Probe { selector: selector@ },
            Command::ScrollAll => CommandV::ScrollAll,
            Command::ElementTexts { selector } => CommandV::ElementTexts { selector: selector@ },
            Command::ClickElement { selector, index } => CommandV::ClickElement {
                selector: selector@,
                index: *index,
            },
            Command::FetchHtml => CommandV::FetchHtml,
            Command::Back => CommandV::Back,
            Command::Forward => CommandV::Forward,
            Command::Refresh => CommandV::Refresh,
            Command::FrameAttributes { selector } => CommandV::FrameAttributes { selector: selector@ },
            Command::EnterFrame { index } => CommandV::EnterFrame { index: *index },
            Command::DefaultFrame => CommandV::DefaultFrame,
            Command::NewTab => CommandV::NewTab,
            Command::CountTabs => CommandV::CountTabs,
            Command::SwitchTab { index } => CommandV::SwitchTab { index: *index },
            Command::CloseWindow => CommandV::CloseWindow,
            Command::TypeInto { selector, text } => CommandV::TypeInto { selector: selector@, text: text@ },
            Command::PressKey { key } => CommandV::PressKey { key: *key },
            Command::ClearAndType { selector, text } => CommandV::ClearAndType {
                selector: selector@,
                text: text@,
            },
            Command::ScrollBy { delta } => CommandV::ScrollBy { delta: *delta },
        }
    }
}

pub ghost struct FrameIdsV {
    pub id: Option<Seq<char>>,
    pub name: Option<Seq<char>>,
    pub src: Option<Seq<char>>,
}

impl View for FrameIds {
    type V = FrameIdsV;

    open spec fn view(&self) -> FrameIdsV {
        FrameIdsV { id: opt_view(self.id), name: opt_view(self.name), src: opt_view(self.src) }
    }
}

pub ghost enum ReplyV {
    Done,
    Found(bool),
    Texts(Seq<Option<Seq<char>>>),
    Html(Seq<char>),
    Frames { target: FrameIdsV, frames: Seq<FrameIdsV> },
    TabCount(usize),
    Moved(i64),
    Visible(Option<bool>),
    Failed(Seq<char>),
}

impl View for Reply {
    type V = ReplyV;

    open spec fn view(&self) -> ReplyV {
        match self {
            Reply::Done => ReplyV::Done,
            Reply::Found(b) => ReplyV::Found(*b),
            Reply::Texts(v) => ReplyV::Texts(v@.map_values(|o: Option<String>| opt_view(o))),
            Reply::Html(s) => ReplyV::Html(s@),
            Reply::Frames { target, frames } => ReplyV::Frames {
                target: target@,
                frames: frames@.map_values(|f: FrameIds| f@),
            },
            Reply::TabCount(n) => ReplyV::TabCount(*n),
            Reply::Moved(m) => ReplyV::Moved(*m),
            Reply::Visible(v) => ReplyV::Visible(*v),
            Reply::Failed(s) => ReplyV::Failed(s@),
        }
    }
}

pub ghost enum RunErrorV {
    Browser { message: Seq<char> },
    Stopped { sequence: Seq<char> },
    NoPage,
    InvalidSelector { selector: Seq<char> },
    InvalidHtmlSelector { selector: Seq<char> },
    SelectorNotFound { selector: Seq<char> },
    WaitTimeout { selector: Seq<char> },
    ElementNotFound { selector: Seq<char> },
    NotVisible { selector: Seq<char> },
    TextNotFound { selector: Seq<char>, text: Seq<char> },
}

impl View for RunError {
    type V = RunErrorV;

    open spec fn view(&self) -> RunErrorV {
        match self {
            RunError::Browser { message } => RunErrorV::Browser { message: message@ },
            RunError::Stopped { sequence } => RunErrorV::Stopped { sequence: sequence@ },
            RunError::NoPage => RunErrorV::NoPage,
            RunError::InvalidSelector { selector } => RunErrorV::InvalidSelector { selector: selector@ },
            RunError::InvalidHtmlSelector { selector } => RunErrorV::InvalidHtmlSelector {
                selector: selector@,
            },
            RunError::SelectorNotFound { selector } => RunErrorV::SelectorNotFound { selector: selector@ },
            RunError::WaitTimeout { selector } => RunErrorV::WaitTimeout { selector: selector@ },
            RunError::ElementNotFound { selector } => RunErrorV::ElementNotFound { selector: selector@ },
            RunError::NotVisible { selector } => RunErrorV::NotVisible { selector: selector@ },
            RunError::TextNotFound { selector, text } => RunErrorV::TextNotFound {
                selector: selector@,
                text: text@,
            },
        }
    }
}

/// The text that reports an error.
pub open spec fn error_text(e: RunErrorV) -> Seq<char> {
    match e {
        RunErrorV::Browser { message } => message,
        RunErrorV::Stopped { sequence } => sequence + "🛑 Stop signal"@,
        RunErrorV::NoPage => "No HTML available before running Container."@,
        RunErrorV::InvalidSelector { selector } => "Selector parsing failed: "@ + selector,
        RunErrorV::InvalidHtmlSelector { selector } => "Invalid CSS selector: "@ + selector,
        RunErrorV::SelectorNotFound { selector } => "Selector '"@ + selector + "' not found"@,
        RunErrorV::WaitTimeout { selector } => "Timed out waiting for '"@ + selector + "'"@,
        RunErrorV::ElementNotFound { selector } => "Element '"@ + selector + "' not found"@,
        RunErrorV::NotVisible { selector } => "Element '"@ + selector + "' is not visible"@,
        RunErrorV::TextNotFound { selector, text } => "No element of '"@ + selector + "' contains '"@ + text
            + "'"@,
    }
}

impl RunError {
    /// The text that reports the error.
    pub fn message(&self) -> (s: String)
        ensures
            s@ == error_text(self@),
    {
        match self {
            RunError::Browser { message } => message.clone(),
            RunError::Stopped { sequence } => {
                let mut s = sequence.clone();
                s.append("🛑 Stop signal");
                s
            },
            RunError::NoPage => String::from_str("No HTML available before running Container."),
            RunError::InvalidSelector { selector } => {
                let mut s = String::from_str("Selector parsing failed: ");
                s.append(selector.as_str());
                s
            },
            RunError::InvalidHtmlSelector { selector } => {
                let mut s = String::from_str("Invalid CSS selector: ");
                s.append(selector.as_str());
                s
            },
            RunError::SelectorNotFound { selector } => {
                let mut s = String::from_str("Selector '");
                s.append(selector.as_str());
                s.append("' not found");
                s
            },
            RunError::WaitTimeout { selector } => {
                let mut s = String::from_str("Timed out waiting for '");
                s.append(selector.as_str());
                s.append("'");
                s
            },
            RunError::ElementNotFound { selector } => {
                let mut s = String::from_str("Element '");
                s.append(selector.as_str());
                s.append("' not found");
                s
            },
            RunError::NotVisible { selector } => {
                let mut s = String::from_str("Element '");
                s.append(selector.as_str());
                s.append("' is not visible");
                s
            },
            RunError::TextNotFound { selector, text } => {
                let mut s = String::from_str("No element of '");
                s.append(selector.as_str());
                s.append("' contains '");
                s.append(text.as_str());
                s.append("'");
                s
            },
        }
    }
}

pub ghost enum PendingV {
    Finish,
    ClickTarget { selector: Seq<char> },
    Probe { selector: Seq<char>, ms: u64, waited: u64 },
    ProbePause { selector: Seq<char>, ms: u64, waited: u64 },
    TextsFor { selector: Seq<char>, needle: Seq<char> },
    Fetch { selector: Seq<char>, ms: u64, attempts: u32 },
    FetchPause { selector: Seq<char>, ms: u64, attempts: u32 },
    FrameIds,
    TabOpened { url: Seq<char> },
    TabsCounted { url: Seq<char> },
    TabSwitched { url: Seq<char> },
    TabsForIndex { index: usize },
    TabsForLast,
    WindowClosed,
    Scrolled { remaining: i64, iter: u32 },
    ScrollPause { remaining: i64, iter: u32 },
    DismissLook { index: usize },
    DismissClicked { index: usize },
    DismissPause { index: usize },
}

impl View for Pending {
    type V = PendingV;

    open spec fn view(&self) -> PendingV {
        match self {
            Pending::Finish => PendingV::Finish,
            Pending::ClickTarget { selector } => PendingV::ClickTarget { selector: selector@ },
            Pending::Probe { selector, ms, waited } => PendingV::Probe {
                selector: selector@,
                ms: *ms,
                waited: *waited,
            },
            Pending::ProbePause { selector, ms, waited } => PendingV::ProbePause {
                selector: selector@,
                ms: *ms,
                waited: *waited,
            },
            Pending::TextsFor { selector, needle } => PendingV::TextsFor {
                selector: selector@,
                needle: needle@,
            },
            Pending::Fetch { selector, ms, attempts } => PendingV::Fetch {
                selector: selector@,
                ms: *ms,
                attempts: *attempts,
            },
            Pending::FetchPause { selector, ms, attempts } => PendingV::FetchPause {
                selector: selector@,
                ms: *ms,
                attempts: *attempts,
            },
            Pending::FrameIds => PendingV::FrameIds,
            Pending::TabOpened { url } => PendingV::TabOpened { url: url@ },
            Pending::TabsCounted { url } => PendingV::TabsCounted { url: url@ },
            Pending::TabSwitched { url } => PendingV::TabSwitched { url: url@ },
            Pending::TabsForIndex { index } => PendingV::TabsForIndex { index: *index },
            Pending::TabsForLast => PendingV::TabsForLast,
            Pending::WindowClosed => PendingV::WindowClosed,
            Pending::Scrolled { remaining, iter } => PendingV::Scrolled {
                remaining: *remaining,
                iter: *iter,
            },
            Pending::ScrollPause { remaining, iter } => PendingV::ScrollPause {
                remaining: *remaining,
                iter: *iter,
            },
            Pending::DismissLook { index } => PendingV::DismissLook { index: *index },
            Pending::DismissClicked { index } => PendingV::DismissClicked { index: *index },
            Pending::DismissPause { index } => PendingV::DismissPause { index: *index },
        }
    }
}

pub ghost enum ActStepV {
    Issue(CommandV, PendingV),
    Complete(Option<Seq<char>>),
    Fail(RunErrorV),
}

impl View for ActStep {
    type V = ActStepV;

    open spec fn view(&self) -> ActStepV {
        match self {
            ActStep::Issue(c, p) => ActStepV::Issue(c@, p@),
            ActStep::Complete(Some(p)) => ActStepV::Complete(Some(p.source())),
            ActStep::Complete(None) => ActStepV::Complete(None),
            ActStep::Fail(e) => ActStepV::Fail(e@),
        }
    }
}


// ---------------------------------------------------------------------
// Links
// ---------------------------------------------------------------------

/// `url::Url::parse(base)` then `Url::join(href)`, serialised; `None` when
/// either fails.
pub uninterp spec fn url_joined(base: Seq<char>, href: Seq<char>) -> Option<Seq<char>>;

/// `url::Url::parse(base)` then `origin().ascii_serialization()`; `None`
/// when the base does not parse.
pub uninterp spec fn url_origin(base: Seq<char>) -> Option<Seq<char>>;

/// `Url::parse(base)`, `Url::join(href)`, `to_string`.
#[verifier::external_body]
fn join_url(base: &str, href: &str) -> (r: Option<String>)
    ensures
        opt_view(r) == url_joined(base@, href@),
{
    url::Url::parse(base).and_then(|b| b.join(href)).ok().map(|u| u.to_string())
}

/// `Url::parse(base)`, `origin().ascii_serialization()`.
#[verifier::external_body]
fn origin_of(base: &str) -> (r: Option<String>)
    ensures
        opt_view(r) == url_origin(base@),
{
    url::Url::parse(base).ok().map(|b| b.origin().ascii_serialization())
}

/// `s` without its trailing `c` characters (`str::trim_end_matches(c)`).
pub open spec fn strip_trailing(s: Seq<char>, c: char) -> Seq<char>
    decreases s.len(),
{
    if s.len() > 0 && s.last() == c {
        strip_trailing(s.drop_last(), c)
    } else {
        s
    }
}

/// `str::trim_end_matches` with a character pattern.
pub fn trim_end_char(s: &str, c: char) -> (r: String)
    ensures
        r@ == strip_trailing(s@, c),
{
    let v = crate::text::chars_of(s);
    let mut n = v.len();
    assert(v@.subrange(0, n as int) =~= s@);
    while n > 0 && v[n - 1] == c
        invariant
            n <= v@.len(),
            strip_trailing(v@.subrange(0, n as int), c) == strip_trailing(s@, c),
            v@ == s@,
        decreases n,
    {
        assert(v@.subrange(0, n as int).drop_last() =~= v@.subrange(0, n - 1));
        n = n - 1;
    }
    crate::text::string_of_range(&v, 0, n)
}

/// Where `NavigateHref` goes: an absolute `http(s)` link as it is; else the
/// link joined to the base; failing that, the base's origin (or the base
/// without trailing slashes) followed by a rooted link, or the base without
/// trailing slashes, a slash, and the relative link.
pub open spec fn href_target(base: Seq<char>, href: Seq<char>) -> Seq<char> {
    if has_prefix(href, "http://"@) || has_prefix(href, "https://"@) {
        href
    } else {
        match url_joined(base, href) {
            Some(u) => u,
            None => if has_prefix(href, "/"@) {
                match url_origin(base) {
                    Some(o) => o + href,
                    None => strip_trailing(base, '/') + href,
                }
            } else {
                strip_trailing(base, '/') + "/"@ + href
            },
        }
    }
}

/// The address `NavigateHref` goes to.
pub fn resolve_href(base: &str, href: &str) -> (r: String)
    ensures
        r@ == href_target(base@, href@),
{
    if starts_with(href, "http://") || starts_with(href, "https://") {
        return href.to_string();
    }
    match join_url(base, href) {
        Some(u) => u,
        None => {
            if starts_with(href, "/") {
                match origin_of(base) {
                    Some(o) => {
                        let mut r = o;
                        r.append(href);
                        r
                    },
                    None => {
                        let mut r = trim_end_char(base, '/');
                        r.append(href);
                        r
                    },
                }
            } else {
                let mut r = trim_end_char(base, '/');
                r.append("/");
                r.append(href);
                r
            }
        },
    }
}

// ---------------------------------------------------------------------
// Decisions
// ---------------------------------------------------------------------

/// The selectors of the buttons that `DismissPermission` tries.
pub open spec fn popup_selectors() -> Seq<Seq<char>> {
    seq![
        "button[aria-label*='\u{cc28}\u{b2e8}']"@,
        "button[aria-label*='\u{ac70}\u{bd80}']"@,
        "button[aria-label*='\u{d5c8}\u{c6a9} \u{c548}\u{d568}']"@,
        "button:contains('\u{cc28}\u{b2e8}')"@,
        "button:contains('\u{ac70}\u{bd80}')"@,
        "button:contains('\u{b2eb}\u{ae30}')"@,
        "[data-testid*='deny']"@,
        "[data-testid*='block']"@,
    ]
}

/// The selectors of the buttons that `DismissPermission` tries.
pub fn dismiss_selectors() -> (v: Vec<String>)
    ensures
        v@.map_values(|s: String| s@) == popup_selectors(),
{
    let mut v: Vec<String> = Vec::new();
    v.push(String::from_str("button[aria-label*='\u{cc28}\u{b2e8}']"));
    v.push(String::from_str("button[aria-label*='\u{ac70}\u{bd80}']"));
    v.push(String::from_str("button[aria-label*='\u{d5c8}\u{c6a9} \u{c548}\u{d568}']"));
    v.push(String::from_str("button:contains('\u{cc28}\u{b2e8}')"));
    v.push(String::from_str("button:contains('\u{ac70}\u{bd80}')"));
    v.push(String::from_str("button:contains('\u{b2eb}\u{ae30}')"));
    v.push(String::from_str("[data-testid*='deny']"));
    v.push(String::from_str("[data-testid*='block']"));
    assert(v@.map_values(|s: String| s@) =~= popup_selectors());
    v
}

/// Negation that wraps at `i64::MIN`.
pub open spec fn neg_wrapping(d: i64) -> i64 {
    if d == i64::MIN {
        i64::MIN
    } else {
        (0 - d) as i64
    }
}

/// Subtraction that wraps around the range of `i64`.
pub open spec fn sub_wrapping(a: i64, b: i64) -> i64 {
    let d = a - b;
    if d > i64::MAX {
        (d - 0x1_0000_0000_0000_0000) as i64
    } else if d < i64::MIN {
        (d + 0x1_0000_0000_0000_0000) as i64
    } else {
        d as i64
    }
}

/// The magnitude of `d` is below 10.
pub open spec fn near_zero(d: i64) -> bool {
    -10 < d < 10
}

/// The first step of scrolling by `delta` pixels.
pub open spec fn scroll_start(delta: i64) -> ActStepV {
    if delta == 0 {
        ActStepV::Complete(None)
    } else {
        ActStepV::Issue(CommandV::ScrollBy { delta }, PendingV::Scrolled { remaining: delta, iter: 1 })
    }
}

/// The first move of an action, its parameters resolved in `env`.
pub open spec fn act_start(a: Action, env: Map<Seq<char>, Seq<char>>) -> ActStepV {
    let e = Some(env);
    match a {
        Action::Click { selector_string } => ActStepV::Issue(
            CommandV::Visibility { selector: resolve_text(selector_string, e) },
            PendingV::ClickTarget { selector: resolve_text(selector_string, e) },
        ),
        Action::Navigate { url } => ActStepV::Issue(
            CommandV::Goto { url: resolve_text(url, e) },
            PendingV::Finish,
        ),
        Action::NavigateHref { base, href } => ActStepV::Issue(
            CommandV::Goto { url: href_target(resolve_text(base, e), resolve_text(href, e)) },
            PendingV::Finish,
        ),
        Action::Wait { time_ms } => ActStepV::Issue(
            CommandV::Sleep { ms: resolve_u64(time_ms, e) },
            PendingV::Finish,
        ),
        Action::WaitFor { selector_string, time_ms } => ActStepV::Issue(
            CommandV::Probe { selector: resolve_text(selector_string, e) },
            PendingV::Probe {
                selector: resolve_text(selector_string, e),
                ms: resolve_u64(time_ms, e),
                waited: 0,
            },
        ),
        Action::ScrollAll => ActStepV::Issue(CommandV::ScrollAll, PendingV::Finish),
        Action::ScrollDown { scroll } => scroll_start(resolve_i64(scroll, e)),
        Action::ScrollUp { scroll } => scroll_start(neg_wrapping(resolve_i64(scroll, e))),
        Action::ClickByText { selector_string, text } => ActStepV::Issue(
            CommandV::ElementTexts { selector: resolve_text(selector_string, e) },
            PendingV::TextsFor {
                selector: resolve_text(selector_string, e),
                needle: resolve_text(text, e),
            },
        ),
        Action::GetHTML { selector_string, time_ms } => {
            let sel = resolve_text(selector_string, e);
            if css_selector_valid(sel) {
                ActStepV::Issue(
                    CommandV::FetchHtml,
                    PendingV::Fetch { selector: sel, ms: resolve_u64(time_ms, e), attempts: 1 },
                )
            } else {
                ActStepV::Fail(RunErrorV::InvalidHtmlSelector { selector: sel })
            }
        },
        Action::DismissPermission => ActStepV::Issue(
            CommandV::Visibility { selector: popup_selectors()[0] },
            PendingV::DismissLook { index: 0 },
        ),
        Action::SwitchToDefaultContent => ActStepV::Issue(CommandV::DefaultFrame, PendingV::Finish),
        Action::SwitchToFrame { selector_string } => ActStepV::Issue(
            CommandV::FrameAttributes { selector: resolve_text(selector_string, e) },
            PendingV::FrameIds,
        ),
        Action::Refresh => ActStepV::Issue(CommandV::Refresh, PendingV::Finish),
        Action::Forward => ActStepV::Issue(CommandV::Forward, PendingV::Finish),
        Action::Backward => ActStepV::Issue(CommandV::Back, PendingV::Finish),
        Action::NewTab { url } => ActStepV::Issue(
            CommandV::NewTab,
            PendingV::TabOpened { url: resolve_text(url, e) },
        ),
        Action::SwitchTab { index } => ActStepV::Issue(
            CommandV::CountTabs,
            PendingV::TabsForIndex { index: resolve_u64(index, e) as usize },
        ),
        Action::CloseTab => ActStepV::Issue(CommandV::CloseWindow, PendingV::WindowClosed),
        Action::SwitchToLastTab => ActStepV::Issue(CommandV::CountTabs, PendingV::TabsForLast),
        Action::Type { selector, text } => ActStepV::Issue(
            CommandV::TypeInto { selector: resolve_text(selector, e), text: resolve_text(text, e) },
            PendingV::Finish,
        ),
        Action::PressKey { key } => ActStepV::Issue(CommandV::PressKey { key }, PendingV::Finish),
        Action::ClearAndType { selector, text } => ActStepV::Issue(
            CommandV::ClearAndType { selector: resolve_text(selector, e), text: resolve_text(text, e) },
            PendingV::Finish,
        ),
    }
}

/// The index of the first readable text at or after `i` that contains `needle`.
pub open spec fn first_containing_from(ts: Seq<Option<Seq<char>>>, needle: Seq<char>, i: int) -> Option<int>
    decreases ts.len() - i,
{
    if i < 0 || i >= ts.len() {
        None
    } else if ts[i] is Some && contains_spec(ts[i]->0, needle) {
        Some(i)
    } else {
        first_containing_from(ts, needle, i + 1)
    }
}

/// The frame `f` is the target `t`: a present id, name or src of the
/// target equals that of `f`.
pub open spec fn same_frame(t: FrameIdsV, f: FrameIdsV) -> bool {
    ||| (t.id is Some && t.id == f.id)
    ||| (t.name is Some && t.name == f.name)
    ||| (t.src is Some && t.src == f.src)
}

/// The index of the first frame at or after `i` that is the target.
pub open spec fn first_frame_from(t: FrameIdsV, fs: Seq<FrameIdsV>, i: int) -> Option<int>
    decreases fs.len() - i,
{
    if i < 0 || i >= fs.len() {
        None
    } else if same_frame(t, fs[i]) {
        Some(i)
    } else {
        first_frame_from(t, fs, i + 1)
    }
}

/// The reply has the form that the pending step expects.
pub open spec fn reply_fits(p: PendingV, r: ReplyV) -> bool {
    match r {
        ReplyV::Failed(_) => true,
        _ => match p {
            PendingV::Finish => r is Done,
            PendingV::ClickTarget { .. } => r is Visible,
            PendingV::Probe { .. } => r is Found,
            PendingV::ProbePause { .. } => r is Done,
            PendingV::TextsFor { .. } => r is Texts,
            PendingV::Fetch { .. } => r is Html,
            PendingV::FetchPause { .. } => r is Done,
            PendingV::FrameIds => r is Frames,
            PendingV::TabOpened { .. } => r is Done,
            PendingV::TabsCounted { .. } => r matches ReplyV::TabCount(n) && n > 0,
            PendingV::TabSwitched { .. } => r is Done,
            PendingV::TabsForIndex { .. } => r is TabCount,
            PendingV::TabsForLast => r is TabCount,
            PendingV::WindowClosed => r is Done,
            PendingV::Scrolled { .. } => r is Moved,
            PendingV::ScrollPause { .. } => r is Done,
            PendingV::DismissLook { .. } => r is Visible,
            PendingV::DismissClicked { .. } => r is Done,
            PendingV::DismissPause { .. } => r is Done,
        },
    }
}

/// Whether `r` is an answer of the kind that `p` waits for.
pub fn fits(p: &Pending, r: &Reply) -> (b: bool)
    ensures
        b == reply_fits(p@, r@),
{
    match r {
        Reply::Failed(_) => true,
        Reply::Done => match p {
            Pending::Finish | Pending::ProbePause { .. } | Pending::FetchPause { .. }
            | Pending::TabOpened { .. } | Pending::TabSwitched { .. } | Pending::WindowClosed
            | Pending::ScrollPause { .. } | Pending::DismissClicked { .. } | Pending::DismissPause { .. } => true,
            _ => false,
        },
        Reply::Found(_) => matches!(p, Pending::Probe { .. }),
        Reply::Texts(_) => matches!(p, Pending::TextsFor { .. }),
        Reply::Html(_) => matches!(p, Pending::Fetch { .. }),
        Reply::Frames { .. } => matches!(p, Pending::FrameIds),
        Reply::TabCount(n) => match p {
            Pending::TabsCounted { .. } => *n > 0,
            Pending::TabsForIndex { .. } | Pending::TabsForLast => true,
            _ => false,
        },
        Reply::Moved(_) => matches!(p, Pending::Scrolled { .. }),
        Reply::Visible(_) => matches!(p, Pending::ClickTarget { .. } | Pending::DismissLook { .. }),
    }
}

/// The pending step carries what its continuation needs.
pub open spec fn pending_ok(p: PendingV) -> bool {
    match p {
        PendingV::Fetch { selector, .. } => css_selector_valid(selector),
        PendingV::FetchPause { selector, attempts, .. } => css_selector_valid(selector) && attempts
            < 10,
        PendingV::Probe { ms, waited, .. } => waited <= ms,
        PendingV::ProbePause { ms, waited, .. } => waited <= ms,
        PendingV::DismissLook { index } => index < popup_selectors().len(),
        PendingV::DismissClicked { index } => index < popup_selectors().len(),
        PendingV::DismissPause { index } => index < popup_selectors().len(),
        _ => true,
    }
}

/// The step issues nothing that a later reply could not continue.
pub open spec fn step_ok(s: ActStepV) -> bool {
    match s {
        ActStepV::Issue(_, p) => pending_ok(p),
        _ => true,
    }
}

/// How long `WaitFor` pauses between probes, at most.
pub const WAIT_POLL_MS: u64 = 100;

/// The next pause of `WaitFor`: the poll interval, cut short at the
/// deadline `ms`.
pub open spec fn wait_step(ms: u64, waited: u64) -> u64 {
    if ms - waited < WAIT_POLL_MS {
        (ms - waited) as u64
    } else {
        WAIT_POLL_MS
    }
}

/// `DismissPermission` after popup selector `index`: look for the next
/// button, or finish after the last.
pub open spec fn dismiss_next(index: usize) -> ActStepV {
    if index + 1 < popup_selectors().len() {
        ActStepV::Issue(
            CommandV::Visibility { selector: popup_selectors()[index + 1] },
            PendingV::DismissLook { index: (index + 1) as usize },
        )
    } else {
        ActStepV::Complete(None)
    }
}

/// The move of an action after the browser answered `r` to the command
/// that `p` waits on.
pub open spec fn act_resume(p: PendingV, r: ReplyV) -> ActStepV {
    match r {
        ReplyV::Failed(m) => ActStepV::Fail(RunErrorV::Browser { message: m }),
        _ => match (p, r) {
            (PendingV::ClickTarget { selector }, ReplyV::Visible(v)) => match v {
                None => ActStepV::Fail(RunErrorV::ElementNotFound { selector }),
                Some(false) => ActStepV::Fail(RunErrorV::NotVisible { selector }),
                Some(true) => ActStepV::Issue(CommandV::ClickFirst { selector }, PendingV::Finish),
            },
            (PendingV::Probe { selector, ms, waited }, ReplyV::Found(b)) => if b {
                ActStepV::Complete(None)
            } else if waited >= ms {
                ActStepV::Fail(RunErrorV::WaitTimeout { selector })
            } else {
                ActStepV::Issue(
                    CommandV::Sleep { ms: wait_step(ms, waited) },
                    PendingV::ProbePause { selector, ms, waited: (waited + wait_step(ms, waited)) as u64 },
                )
            },
            (PendingV::ProbePause { selector, ms, waited }, _) => ActStepV::Issue(
                CommandV::Probe { selector },
                PendingV::Probe { selector, ms, waited },
            ),
            (PendingV::TextsFor { selector, needle }, ReplyV::Texts(ts)) => match first_containing_from(
                ts,
                needle,
                0,
            ) {
                Some(i) => ActStepV::Issue(
                    CommandV::ClickElement { selector, index: i as usize },
                    PendingV::Finish,
                ),
                None => ActStepV::Fail(RunErrorV::TextNotFound { selector, text: needle }),
            },
            (PendingV::Fetch { selector, ms, attempts }, ReplyV::Html(src)) => if css_texts(
                src,
                selector,
            ).len() > 0 {
                ActStepV::Complete(Some(src))
            } else if attempts >= 10 {
                ActStepV::Fail(RunErrorV::SelectorNotFound { selector })
            } else {
                ActStepV::Issue(
                    CommandV::Sleep { ms },
                    PendingV::FetchPause { selector, ms, attempts },
                )
            },
            (PendingV::FetchPause { selector, ms, attempts }, _) => ActStepV::Issue(
                CommandV::FetchHtml,
                PendingV::Fetch { selector, ms, attempts: (attempts + 1) as u32 },
            ),
            (PendingV::FrameIds, ReplyV::Frames { target, frames }) => match first_frame_from(
                target,
                frames,
                0,
            ) {
                Some(i) => ActStepV::Issue(
                    CommandV::EnterFrame { index: (i % 65536) as u16 },
                    PendingV::Finish,
                ),
                None => ActStepV::Complete(None),
            },
            (PendingV::TabOpened { url }, _) => ActStepV::Issue(
                CommandV::CountTabs,
                PendingV::TabsCounted { url },
            ),
            (PendingV::TabsCounted { url }, ReplyV::TabCount(n)) => ActStepV::Issue(
                CommandV::SwitchTab { index: (n - 1) as usize },
                PendingV::TabSwitched { url },
            ),
            (PendingV::TabSwitched { url }, _) => ActStepV::Issue(
                CommandV::Goto { url },
                PendingV::Finish,
            ),
            (PendingV::TabsForIndex { index }, ReplyV::TabCount(n)) => if index < n {
                ActStepV::Issue(CommandV::SwitchTab { index }, PendingV::Finish)
            } else {
                ActStepV::Complete(None)
            },
            (PendingV::TabsForLast, ReplyV::TabCount(n)) => if n > 0 {
                ActStepV::Issue(CommandV::SwitchTab { index: (n - 1) as usize }, PendingV::Finish)
            } else {
                ActStepV::Complete(None)
            },
            (PendingV::WindowClosed, _) => ActStepV::Issue(CommandV::CountTabs, PendingV::TabsForLast),
            (PendingV::Scrolled { remaining, iter }, ReplyV::Moved(m)) => if m == 0 {
                ActStepV::Complete(None)
            } else if near_zero(sub_wrapping(remaining, m)) {
                ActStepV::Complete(None)
            } else {
                ActStepV::Issue(
                    CommandV::Sleep { ms: 100 },
                    PendingV::ScrollPause { remaining: sub_wrapping(remaining, m), iter },
                )
            },
            (PendingV::ScrollPause { remaining, iter }, _) => if iter >= 20 {
                ActStepV::Complete(None)
            } else {
                ActStepV::Issue(
                    CommandV::ScrollBy { delta: remaining },
                    PendingV::Scrolled { remaining, iter: (iter + 1) as u32 },
                )
            },
            (PendingV::DismissLook { index }, ReplyV::Visible(v)) => if v == Some(true) {
                ActStepV::Issue(
                    CommandV::TryClickFirst { selector: popup_selectors()[index as int] },
                    PendingV::DismissClicked { index },
                )
            } else {
                dismiss_next(index)
            },
            (PendingV::DismissClicked { index }, _) => ActStepV::Issue(
                CommandV::Sleep { ms: 500 },
                PendingV::DismissPause { index },
            ),
            (PendingV::DismissPause { index }, _) => dismiss_next(index),
            _ => ActStepV::Complete(None),
        },
    }
}


// ---------------------------------------------------------------------
// The decisions, executed
// ---------------------------------------------------------------------

fn opt_string_eq(a: &Option<String>, b: &Option<String>) -> (r: bool)
    ensures
        r == (opt_view(*a) == opt_view(*b)),
{
    match (a, b) {
        (Some(x), Some(y)) => crate::text::str_eq(x.as_str(), y.as_str()),
        (None, None) => true,
        _ => false,
    }
}

/// The index of the first readable text that contains `needle`.
pub fn first_containing(ts: &Vec<Option<String>>, needle: &str) -> (r: Option<usize>)
    ensures
        ({
            let tv = ts@.map_values(|o: Option<String>| opt_view(o));
            match r {
                Some(i) => first_containing_from(tv, needle@, 0) == Some(i as int),
                None => first_containing_from(tv, needle@, 0) is None,
            }
        }),
{
    let ghost tv = ts@.map_values(|o: Option<String>| opt_view(o));
    let mut i: usize = 0;
    while i < ts.len()
        invariant
            i <= ts@.len(),
            tv == ts@.map_values(|o: Option<String>| opt_view(o)),
            first_containing_from(tv, needle@, i as int) == first_containing_from(tv, needle@, 0),
        decreases ts@.len() - i,
    {
        assert(tv[i as int] == opt_view(ts@[i as int]));
        match &ts[i] {
            Some(t) => {
                if contains(t.as_str(), needle) {
                    return Some(i);
                }
            },
            None => {},
        }
        i = i + 1;
    }
    None
}

/// The index of the first frame that is the target.
pub fn first_frame(target: &FrameIds, frames: &Vec<FrameIds>) -> (r: Option<usize>)
    ensures
        ({
            let fv = frames@.map_values(|f: FrameIds| f@);
            match r {
                Some(i) => first_frame_from(target@, fv, 0) == Some(i as int),
                None => first_frame_from(target@, fv, 0) is None,
            }
        }),
{
    let ghost fv = frames@.map_values(|f: FrameIds| f@);
    let mut i: usize = 0;
    while i < frames.len()
        invariant
            i <= frames@.len(),
            fv == frames@.map_values(|f: FrameIds| f@),
            first_frame_from(target@, fv, i as int) == first_frame_from(target@, fv, 0),
        decreases frames@.len() - i,
    {
        let f = &frames[i];
        assert(fv[i as int] == f@);
        if (target.id.is_some() && opt_string_eq(&target.id, &f.id)) || (target.name.is_some()
            && opt_string_eq(&target.name, &f.name)) || (target.src.is_some() && opt_string_eq(
            &target.src,
            &f.src,
        )) {
            return Some(i);
        }
        i = i + 1;
    }
    None
}

fn wrapping_neg(d: i64) -> (r: i64)
    ensures
        r == neg_wrapping(d),
{
    if d == i64::MIN {
        i64::MIN
    } else {
        -d
    }
}

fn wrapping_sub(a: i64, b: i64) -> (r: i64)
    ensures
        r == sub_wrapping(a, b),
{
    let w: i128 = (a as i128) - (b as i128);
    if w > 0x7FFF_FFFF_FFFF_FFFF {
        (w - 0x1_0000_0000_0000_0000) as i64
    } else if w < -0x8000_0000_0000_0000 {
        (w + 0x1_0000_0000_0000_0000) as i64
    } else {
        w as i64
    }
}

fn scroll_begin(delta: i64) -> (r: ActStep)
    ensures
        r@ == scroll_start(delta),
        step_ok(r@),
{
    if delta == 0 {
        ActStep::Complete(None)
    } else {
        ActStep::Issue(Command::ScrollBy { delta }, Pending::Scrolled { remaining: delta, iter: 1 })
    }
}

/// The first move of an action in context `ctx`.
pub fn start_action(a: &Action, ctx: &ExecContext) -> (r: ActStep)
    ensures
        r@ == act_start(*a, ctx.bindings.texts()),
        step_ok(r@),
{
    let c = Some(ctx);
    match a {
        Action::Click { selector_string } => {
            let sel = selector_string.resolve(c);
            ActStep::Issue(
                Command::Visibility { selector: sel.to_string() },
                Pending::ClickTarget { selector: sel.to_string() },
            )
        },
        Action::Navigate { url } => ActStep::Issue(
            Command::Goto { url: url.resolve(c).to_string() },
            Pending::Finish,
        ),
        Action::NavigateHref { base, href } => ActStep::Issue(
            Command::Goto { url: resolve_href(base.resolve(c), href.resolve(c)) },
            Pending::Finish,
        ),
        Action::Wait { time_ms } => ActStep::Issue(
            Command::Sleep { ms: time_ms.resolve(c) },
            Pending::Finish,
        ),
        Action::WaitFor { selector_string, time_ms } => {
            let sel = selector_string.resolve(c);
            ActStep::Issue(
                Command::Probe { selector: sel.to_string() },
                Pending::Probe { selector: sel.to_string(), ms: time_ms.resolve(c), waited: 0 },
            )
        },
        Action::ScrollAll => ActStep::Issue(Command::ScrollAll, Pending::Finish),
        Action::ScrollDown { scroll } => scroll_begin(scroll.resolve(c)),
        Action::ScrollUp { scroll } => scroll_begin(wrapping_neg(scroll.resolve(c))),
        Action::ClickByText { selector_string, text } => {
            let sel = selector_string.resolve(c);
            ActStep::Issue(
                Command::ElementTexts { selector: sel.to_string() },
                Pending::TextsFor { selector: sel.to_string(), needle: text.resolve(c).to_string() },
            )
        },
        Action::GetHTML { selector_string, time_ms } => {
            let sel = selector_string.resolve(c);
            if selector_is_valid(sel) {
                ActStep::Issue(
                    Command::FetchHtml,
                    Pending::Fetch { selector: sel.to_string(), ms: time_ms.resolve(c), attempts: 1 },
                )
            } else {
                ActStep::Fail(RunError::InvalidHtmlSelector { selector: sel.to_string() })
            }
        },
        Action::DismissPermission => {
            let v = dismiss_selectors();
            proof {
                assert(v@.map_values(|s: String| s@).len() == v@.len());
                assert(v@.map_values(|s: String| s@)[0] == v@[0]@);
            }
            ActStep::Issue(Command::Visibility { selector: v[0].clone() }, Pending::DismissLook { index: 0 })
        },
        Action::SwitchToDefaultContent => ActStep::Issue(Command::DefaultFrame, Pending::Finish),
        Action::SwitchToFrame { selector_string } => ActStep::Issue(
            Command::FrameAttributes { selector: selector_string.resolve(c).to_string() },
            Pending::FrameIds,
        ),
        Action::Refresh => ActStep::Issue(Command::Refresh, Pending::Finish),
        Action::Forward => ActStep::Issue(Command::Forward, Pending::Finish),
        Action::Backward => ActStep::Issue(Command::Back, Pending::Finish),
        Action::NewTab { url } => ActStep::Issue(
            Command::NewTab,
            Pending::TabOpened { url: url.resolve(c).to_string() },
        ),
        Action::SwitchTab { index } => ActStep::Issue(
            Command::CountTabs,
            Pending::TabsForIndex { index: index.resolve(c) as usize },
        ),
        Action::CloseTab => ActStep::Issue(Command::CloseWindow, Pending::WindowClosed),
        Action::SwitchToLastTab => ActStep::Issue(Command::CountTabs, Pending::TabsForLast),
        Action::Type { selector, text } => ActStep::Issue(
            Command::TypeInto { selector: selector.resolve(c).to_string(), text: text.resolve(c).to_string() },
            Pending::Finish,
        ),
        Action::PressKey { key } => ActStep::Issue(Command::PressKey { key: *key }, Pending::Finish),
        Action::ClearAndType { selector, text } => ActStep::Issue(
            Command::ClearAndType {
                selector: selector.resolve(c).to_string(),
                text: text.resolve(c).to_string(),
            },
            Pending::Finish,
        ),
    }
}

/// The move of an action after the browser answered `r` to the command
/// that `p` waits on.
pub fn resume_action(p: Pending, r: Reply) -> (s: ActStep)
    requires
        reply_fits(p@, r@),
        pending_ok(p@),
    ensures
        s@ == act_resume(p@, r@),
        step_ok(s@),
{
    if let Reply::Failed(m) = r {
        return ActStep::Fail(RunError::Browser { message: m });
    }
    match p {
        Pending::Finish => ActStep::Complete(None),
        Pending::ClickTarget { selector } => {
            if let Reply::Visible(v) = r {
                match v {
                    None => ActStep::Fail(RunError::ElementNotFound { selector }),
                    Some(false) => ActStep::Fail(RunError::NotVisible { selector }),
                    Some(true) => ActStep::Issue(Command::ClickFirst { selector }, Pending::Finish),
                }
            } else {
                ActStep::Complete(None)
            }
        },
        Pending::Probe { selector, ms, waited } => {
            if let Reply::Found(b) = r {
                if b {
                    ActStep::Complete(None)
                } else if waited >= ms {
                    ActStep::Fail(RunError::WaitTimeout { selector })
                } else {
                    let step = if ms - waited < WAIT_POLL_MS {
                        ms - waited
                    } else {
                        WAIT_POLL_MS
                    };
                    ActStep::Issue(
                        Command::Sleep { ms: step },
                        Pending::ProbePause { selector, ms, waited: waited + step },
                    )
                }
            } else {
                ActStep::Complete(None)
            }
        },
        Pending::ProbePause { selector, ms, waited } => ActStep::Issue(
            Command::Probe { selector: selector.clone() },
            Pending::Probe { selector, ms, waited },
        ),
        Pending::TextsFor { selector, needle } => {
            if let Reply::Texts(ts) = r {
                match first_containing(&ts, needle.as_str()) {
                    Some(i) => ActStep::Issue(Command::ClickElement { selector, index: i }, Pending::Finish),
                    None => ActStep::Fail(RunError::TextNotFound { selector, text: needle }),
                }
            } else {
                ActStep::Complete(None)
            }
        },
        Pending::Fetch { selector, ms, attempts } => {
            if let Reply::Html(src) = r {
                let page = Page::parse(src);
                if page.count(selector.as_str()) > 0 {
                    ActStep::Complete(Some(page))
                } else if attempts >= 10 {
                    ActStep::Fail(RunError::SelectorNotFound { selector })
                } else {
                    ActStep::Issue(Command::Sleep { ms }, Pending::FetchPause { selector, ms, attempts })
                }
            } else {
                ActStep::Complete(None)
            }
        },
        Pending::FetchPause { selector, ms, attempts } => {
            ActStep::Issue(Command::FetchHtml, Pending::Fetch { selector, ms, attempts: attempts + 1 })
        },
        Pending::FrameIds => {
            if let Reply::Frames { target, frames } = r {
                match first_frame(&target, &frames) {
                    Some(i) => ActStep::Issue(
                        Command::EnterFrame { index: (i % 65536) as u16 },
                        Pending::Finish,
                    ),
                    None => ActStep::Complete(None),
                }
            } else {
                ActStep::Complete(None)
            }
        },
        Pending::TabOpened { url } => ActStep::Issue(Command::CountTabs, Pending::TabsCounted { url }),
        Pending::TabsCounted { url } => {
            if let Reply::TabCount(n) = r {
                ActStep::Issue(Command::SwitchTab { index: n - 1 }, Pending::TabSwitched { url })
            } else {
                ActStep::Complete(None)
            }
        },
        Pending::TabSwitched { url } => ActStep::Issue(Command::Goto { url }, Pending::Finish),
        Pending::TabsForIndex { index } => {
            if let Reply::TabCount(n) = r {
                if index < n {
                    ActStep::Issue(Command::SwitchTab { index }, Pending::Finish)
                } else {
                    ActStep::Complete(None)
                }
            } else {
                ActStep::Complete(None)
            }
        },
        Pending::TabsForLast => {
            if let Reply::TabCount(n) = r {
                if n > 0 {
                    ActStep::Issue(Command::SwitchTab { index: n - 1 }, Pending::Finish)
                } else {
                    ActStep::Complete(None)
                }
            } else {
                ActStep::Complete(None)
            }
        },
        Pending::WindowClosed => ActStep::Issue(Command::CountTabs, Pending::TabsForLast),
        Pending::Scrolled { remaining, iter } => {
            if let Reply::Moved(m) = r {
                if m == 0 {
                    ActStep::Complete(None)
                } else {
                    let rest = wrapping_sub(remaining, m);
                    if -10 < rest && rest < 10 {
                        ActStep::Complete(None)
                    } else {
                        ActStep::Issue(
                            Command::Sleep { ms: 100 },
                            Pending::ScrollPause { remaining: rest, iter },
                        )
                    }
                }
            } else {
                ActStep::Complete(None)
            }
        },
        Pending::ScrollPause { remaining, iter } => {
            if iter >= 20 {
                ActStep::Complete(None)
            } else {
                ActStep::Issue(
                    Command::ScrollBy { delta: remaining },
                    Pending::Scrolled { remaining, iter: iter + 1 },
                )
            }
        },
        Pending::DismissLook { index } => {
            if let Reply::Visible(Some(true)) = r {
                let v = dismiss_selectors();
                proof {
                    assert(v@.map_values(|s: String| s@).len() == v@.len());
                    assert(v@.map_values(|s: String| s@)[index as int] == v@[index as int]@);
                }
                ActStep::Issue(
                    Command::TryClickFirst { selector: v[index].clone() },
                    Pending::DismissClicked { index },
                )
            } else {
                dismiss_after(index)
            }
        },
        Pending::DismissClicked { index } => ActStep::Issue(Command::Sleep { ms: 500 }, Pending::DismissPause { index }),
        Pending::DismissPause { index } => dismiss_after(index),
    }
}

fn dismiss_after(index: usize) -> (s: ActStep)
    requires
        index < popup_selectors().len(),
    ensures
        s@ == dismiss_next(index),
        step_ok(s@),
{
    let v = dismiss_selectors();
    proof {
        assert(v@.map_values(|s: String| s@).len() == v@.len());
        if index + 1 < v@.len() {
            assert(v@.map_values(|s: String| s@)[index + 1] == v@[index + 1]@);
        }
    }
    if index + 1 < v.len() {
        ActStep::Issue(Command::Visibility { selector: v[index + 1].clone() }, Pending::DismissLook { index: index + 1 })
    } else {
        ActStep::Complete(None)
    }
}

} // verus!
