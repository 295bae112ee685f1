//! The browser side: device kinds, the Chrome options a browser starts
//! with, and choosing the ChromeDriver that matches the installed Chrome.
use vstd::prelude::*;
use crate::keys::strs;
use crate::text::{chars_of, is_ws, is_whitespace, parse_u32, parse_u32_spec, str_eq, string_of_range};

verus! {

/// The kind of device a browser poses as.
#[derive(Debug, Clone, Copy, PartialEq, Eq, Structural)]
pub enum DeviceType {
    Mobile,
    Desktop,
}

/// The kind of a search result.
#[derive(Debug, Clone, Copy, PartialEq, Eq, Structural)]
pub enum ResultType {
    Place,
    PowerLink,
    Organic,
}

/// The WebDriver endpoint.
pub const SELENIUM_URL: &'static str = "http://localhost:9515";

/// Whether a browser starts headless when not told.
pub const HEADLESS: bool = false;

/// The user agent of a mobile browser.
pub const MOBILE_USER_AGENT: &'static str = "Mozilla/5.0 (iPhone; CPU iPhone OS 17_0 like Mac OS X) AppleWebKit/605.1.15 (KHTML, like Gecko) Version/17.0 Mobile/15E148 Safari/604.1";

/// The user agent of a desktop browser.
pub const DESKTOP_USER_AGENT: &'static str = "Mozilla/5.0 (Macintosh; Intel Mac OS X 10_15_7) AppleWebKit/537.36 (KHTML, like Gecko) Chrome/131.0.0.0 Safari/537.36";

/// The host the browser binds to; `0.0.0.0` leaves the default.
pub const EXTERNAL_IP: &'static str = "0.0.0.0";

/// The user agent of a device.
pub open spec fn agent_of(d: DeviceType) -> Seq<char> {
    match d {
        DeviceType::Mobile => MOBILE_USER_AGENT@,
        DeviceType::Desktop => DESKTOP_USER_AGENT@,
    }
}

/// The fixed options every browser starts with, after the user agent and
/// the headless switch.
pub open spec fn fixed_args() -> Seq<Seq<char>> {
    seq![
        "--log-level=3"@,
        "--silent"@,
        "--disable-background-networking"@,
        "--disable-sync"@,
        "--disable-default-apps"@,
        "--disable-breakpad"@,
        "--no-sandbox"@,
        "--disable-dev-shm-usage"@,
        "--disable-notifications"@,
        "--disable-geolocation"@,
        "--disable-extensions"@,
        "--deny-permission-prompts"@,
        "--disable-prompt-on-repost"@,
        "--disable-blink-features=AutomationControlled"@,
        "--window-size=1920,1080"@,
        "--force-device-scale-factor=1"@,
        "--start-maximized"@,
    ]
}

/// The Chrome arguments of a browser: its user agent, `--headless=new`
/// when headless, the fixed options, and the host when one is set.
pub open spec fn args_of(d: DeviceType, headless: bool) -> Seq<Seq<char>> {
    seq!["--user-agent="@ + agent_of(d)] + (if headless {
        seq!["--headless=new"@]
    } else {
        Seq::<Seq<char>>::empty()
    }) + fixed_args() + (if EXTERNAL_IP@ != "0.0.0.0"@ {
        seq!["--host="@ + EXTERNAL_IP@]
    } else {
        Seq::<Seq<char>>::empty()
    })
}

fn push_str(v: &mut Vec<String>, s: &str)
    ensures
        strs(final(v)@) == strs(old(v)@).push(s@),
{
    let ghost before = strs(v@);
    v.push(String::from_str(s));
    assert(strs(v@) =~= before.push(s@));
}

/// The Chrome arguments a browser of device `d` starts with.
pub fn chrome_args(d: DeviceType, headless: bool) -> (v: Vec<String>)
    ensures
        strs(v@) == args_of(d, headless),
{
    let mut v: Vec<String> = Vec::new();
    let mut ua = String::from_str("--user-agent=");
    match d {
        DeviceType::Mobile => ua.append(MOBILE_USER_AGENT),
        DeviceType::Desktop => ua.append(DESKTOP_USER_AGENT),
    }
    v.push(ua);
    if headless {
        push_str(&mut v, "--headless=new");
    }
    let ghost before_fixed = strs(v@);
    push_str(&mut v, "--log-level=3");
    push_str(&mut v, "--silent");
    push_str(&mut v, "--disable-background-networking");
    push_str(&mut v, "--disable-sync");
    push_str(&mut v, "--disable-default-apps");
    push_str(&mut v, "--disable-breakpad");
    push_str(&mut v, "--no-sandbox");
    push_str(&mut v, "--disable-dev-shm-usage");
    push_str(&mut v, "--disable-notifications");
    push_str(&mut v, "--disable-geolocation");
    push_str(&mut v, "--disable-extensions");
    push_str(&mut v, "--deny-permission-prompts");
    push_str(&mut v, "--disable-prompt-on-repost");
    push_str(&mut v, "--disable-blink-features=AutomationControlled");
    push_str(&mut v, "--window-size=1920,1080");
    push_str(&mut v, "--force-device-scale-factor=1");
    push_str(&mut v, "--start-maximized");
    assert(strs(v@) =~= before_fixed + fixed_args());
    let ghost before_host = strs(v@);
    if !str_eq(EXTERNAL_IP, "0.0.0.0") {
        let mut h = String::from_str("--host=");
        h.append(EXTERNAL_IP);
        v.push(h);
        assert(strs(v@) =~= before_host.push("--host="@ + EXTERNAL_IP@));
    }
    proof {
        let ua_seq = seq!["--user-agent="@ + agent_of(d)];
        let hl = if headless {
            seq!["--headless=new"@]
        } else {
            Seq::<Seq<char>>::empty()
        };
        assert(before_fixed =~= ua_seq + hl);
    }
    assert(strs(v@) =~= args_of(d, headless));
    v
}

// ---------------------------------------------------------------------
// Matching the driver to Chrome
// ---------------------------------------------------------------------

/// The driver-updater handle; installing it is work for the program.
#[derive(Debug)]
pub struct ChromeDriver;

/// The index of the first `.` at or after `i`, or the length.
pub open spec fn dot_from(s: Seq<char>, i: int) -> int
    decreases s.len() - i,
{
    if i < 0 || i >= s.len() {
        s.len() as int
    } else if s[i] == '.' {
        i
    } else {
        dot_from(s, i + 1)
    }
}

/// The text before the first `.`.
pub open spec fn first_component(s: Seq<char>) -> Seq<char> {
    s.subrange(0, dot_from(s, 0))
}

/// The major version of a Chrome version text: the number before the
/// first `.`, or 0 when it is not one.
pub open spec fn chrome_major_spec(version: Seq<char>) -> u32 {
    match parse_u32_spec(first_component(version)) {
        Some(n) => n,
        None => 0,
    }
}

proof fn lemma_dot_from(s: Seq<char>, i: int)
    requires
        0 <= i <= s.len(),
    ensures
        i <= dot_from(s, i) <= s.len(),
    decreases s.len() - i,
{
    if i < s.len() && s[i] != '.' {
        lemma_dot_from(s, i + 1);
    }
}

fn first_component_of(s: &str) -> (r: String)
    ensures
        r@ == first_component(s@),
        r@.len() == dot_from(s@, 0),
{
    let v = chars_of(s);
    let mut i: usize = 0;
    while i < v.len() && v[i] != '.'
        invariant
            i <= v@.len(),
            v@ == s@,
            dot_from(s@, i as int) == dot_from(s@, 0),
        decreases v@.len() - i,
    {
        i = i + 1;
    }
    assert(dot_from(s@, i as int) == i);
    string_of_range(&v, 0, i)
}

/// The major version of a Chrome version text (`143.0.7499.192` gives
/// 143); 0 when the text does not start with a number.
pub fn chrome_major(version: &str) -> (n: u32)
    ensures
        n == chrome_major_spec(version@),
{
    let c = first_component_of(version);
    match parse_u32(c.as_str()) {
        Some(n) => n,
        None => 0,
    }
}

/// The end of the word that starts at `i`.
pub open spec fn word_end(s: Seq<char>, i: int) -> int
    decreases s.len() - i,
{
    if i < 0 {
        0
    } else if i >= s.len() || is_ws(s[i]) {
        i
    } else {
        word_end(s, i + 1)
    }
}

/// The whitespace-separated words of `s[i..]`, in order.
pub open spec fn words_from(s: Seq<char>, i: int) -> Seq<Seq<char>>
    decreases s.len() - i,
{
    if i < 0 || i >= s.len() {
        Seq::empty()
    } else if is_ws(s[i]) {
        words_from(s, i + 1)
    } else {
        proof {
            lemma_word_end(s, i);
        }
        let e = word_end(s, i);
        seq![s.subrange(i, e)] + words_from(s, e)
    }
}

pub proof fn lemma_word_end(s: Seq<char>, i: int)
    requires
        0 <= i <= s.len(),
    ensures
        i <= word_end(s, i) <= s.len(),
        i < s.len() && !is_ws(s[i]) ==> i < word_end(s, i),
        forall|j: int| i <= j < word_end(s, i) ==> !is_ws(#[trigger] s[j]),
        word_end(s, i) < s.len() ==> is_ws(s[word_end(s, i)]),
    decreases s.len() - i,
{
    if i < s.len() && !is_ws(s[i]) {
        lemma_word_end(s, i + 1);
    }
}

/// The words of a text, split at whitespace.
pub fn split_words(s: &str) -> (r: Vec<String>)
    ensures
        strs(r@) == words_from(s@, 0),
{
    let v = chars_of(s);
    let mut r: Vec<String> = Vec::new();
    let mut i: usize = 0;
    assert(strs(r@) =~= Seq::<Seq<char>>::empty());
    while i < v.len()
        invariant
            i <= v@.len(),
            v@ == s@,
            strs(r@) + words_from(s@, i as int) == words_from(s@, 0),
        decreases v@.len() - i,
    {
        if is_whitespace(v[i]) {
            i = i + 1;
        } else {
            let start = i;
            proof {
                lemma_word_end(s@, start as int);
            }
            while i < v.len() && !is_whitespace(v[i])
                invariant
                    start <= i <= v@.len(),
                    v@ == s@,
                    word_end(s@, i as int) == word_end(s@, start as int),
                decreases v@.len() - i,
            {
                i = i + 1;
            }
            assert(word_end(s@, i as int) == i);
            let w = string_of_range(&v, start, i);
            let ghost before = strs(r@);
            r.push(w);
            assert(strs(r@) =~= before.push(s@.subrange(start as int, i as int)));
            assert(words_from(s@, start as int) == seq![s@.subrange(start as int, i as int)] + words_from(s@, i as int));
            assert(strs(r@) + words_from(s@, i as int) =~= before + words_from(s@, start as int));
        }
    }
    assert(words_from(s@, i as int) =~= Seq::<Seq<char>>::empty());
    assert(strs(r@) =~= words_from(s@, 0));
    r
}

/// The major version that `chromedriver --version` reports
/// (`ChromeDriver 143.0.7499.192 (...)` gives 143): the number before the
/// first `.` of the second word; none when there is no such number.
pub open spec fn driver_major_spec(output: Seq<char>) -> Option<u32> {
    let w = words_from(output, 0);
    if w.len() < 2 {
        None
    } else {
        parse_u32_spec(first_component(w[1]))
    }
}

/// The major version in the output of `chromedriver --version`.
pub fn driver_major_from_output(output: &str) -> (r: Option<u32>)
    ensures
        r == driver_major_spec(output@),
{
    let w = split_words(output);
    if w.len() < 2 {
        return None;
    }
    assert(strs(w@)[1] == w@[1]@);
    let c = first_component_of(w[1].as_str());
    parse_u32(c.as_str())
}

/// The version in the output of `google-chrome --version` and the like
/// (`Google Chrome 143.0.1234.56`): its last word, when that holds a `.`.
pub open spec fn linux_version_spec(output: Seq<char>) -> Option<Seq<char>> {
    let w = words_from(output, 0);
    if w.len() > 0 && dot_from(w.last(), 0) < w.last().len() {
        Some(w.last())
    } else {
        None
    }
}

/// The version in the output of `google-chrome --version`.
pub fn linux_version_from_output(output: &str) -> (r: Option<String>)
    ensures
        match r {
            Some(v) => linux_version_spec(output@) == Some(v@),
            None => linux_version_spec(output@) is None,
        },
{
    let w = split_words(output);
    if w.len() == 0 {
        return None;
    }
    let last = &w[w.len() - 1];
    assert(strs(w@).last() == last@);
    let c = first_component_of(last.as_str());
    proof {
        lemma_dot_from(last@, 0);
    }
    if chars_of(c.as_str()).len() < chars_of(last.as_str()).len() {
        Some(last.clone())
    } else {
        None
    }
}

/// Whether the installed driver can stay: its major version is known and
/// equals Chrome's.
pub fn driver_is_current(driver_major: Option<u32>, chrome_major: u32) -> (b: bool)
    ensures
        b == (driver_major == Some(chrome_major)),
{
    match driver_major {
        Some(d) => d == chrome_major,
        None => false,
    }
}

/// Why no driver download was found.
#[derive(Debug, PartialEq, Eq)]
pub enum DriverError {
    /// The milestone list has no entry for this major version.
    NoMilestone { major: String },
    /// The milestone lists no driver downloads.
    NoDownloads,
    /// No download is for the platforms of this machine.
    NoPlatform,
}

impl DriverError {
    /// The text that reports the error.
    pub fn message(&self) -> (s: String)
        ensures
            s@ == match *self {
                DriverError::NoMilestone { major } => "No driver info for Chrome version ("@ + major@
                    + ").\nBrowser might be too new or too old."@,
                DriverError::NoDownloads => "Driver download list is empty."@,
                DriverError::NoPlatform => "Could not find driver URL for current OS/Architecture."@,
            },
    {
        match self {
            DriverError::NoMilestone { major } => {
                let mut s = String::from_str("No driver info for Chrome version (");
                s.append(major.as_str());
                s.append(").\nBrowser might be too new or too old.");
                s
            },
            DriverError::NoDownloads => String::from_str("Driver download list is empty."),
            DriverError::NoPlatform => String::from_str("Could not find driver URL for current OS/Architecture."),
        }
    }
}

/// A driver download: its platform and its URL.
#[derive(Debug)]
pub struct Artifact {
    pub platform: String,
    pub url: String,
}

/// A milestone of the Chrome-for-Testing list: its major version and its
/// driver downloads, if any.
#[derive(Debug)]
pub struct Milestone {
    pub major: String,
    pub chromedriver: Option<Vec<Artifact>>,
}

/// The first milestone among `ms[i..]` for `major`.
pub open spec fn milestone_from(ms: Seq<Milestone>, major: Seq<char>, i: int) -> Option<int>
    decreases ms.len() - i,
{
    if i < 0 || i >= ms.len() {
        None
    } else if ms[i].major@ == major {
        Some(i)
    } else {
        milestone_from(ms, major, i + 1)
    }
}

/// The first download among `arts[i..]` for platform `p`.
pub open spec fn artifact_from(arts: Seq<Artifact>, p: Seq<char>, i: int) -> Option<int>
    decreases arts.len() - i,
{
    if i < 0 || i >= arts.len() {
        None
    } else if arts[i].platform@ == p {
        Some(i)
    } else {
        artifact_from(arts, p, i + 1)
    }
}

/// The URL of the download for the first of `platforms[j..]` that has one.
pub open spec fn url_for(arts: Seq<Artifact>, platforms: Seq<Seq<char>>, j: int) -> Option<Seq<char>>
    decreases platforms.len() - j,
{
    if j < 0 || j >= platforms.len() {
        None
    } else {
        match artifact_from(arts, platforms[j], 0) {
            Some(i) => Some(arts[i].url@),
            None => url_for(arts, platforms, j + 1),
        }
    }
}

/// What looking up the driver gives: a URL, or why there is none.
pub ghost enum DriverOutcome {
    Url(Seq<char>),
    NoMilestone,
    NoDownloads,
    NoPlatform,
}

/// The driver URL for Chrome `major` on a machine whose platforms, in
/// order of preference, are `platforms`.
pub open spec fn driver_url_spec(ms: Seq<Milestone>, major: Seq<char>, platforms: Seq<Seq<char>>) -> DriverOutcome {
    match milestone_from(ms, major, 0) {
        None => DriverOutcome::NoMilestone,
        Some(m) => match ms[m].chromedriver {
            None => DriverOutcome::NoDownloads,
            Some(arts) => match url_for(arts@, platforms, 0) {
                Some(u) => DriverOutcome::Url(u),
                None => DriverOutcome::NoPlatform,
            },
        },
    }
}

fn find_milestone(ms: &Vec<Milestone>, major: &str) -> (r: Option<usize>)
    ensures
        match r {
            Some(i) => milestone_from(ms@, major@, 0) == Some(i as int) && i < ms@.len(),
            None => milestone_from(ms@, major@, 0) is None,
        },
{
    let mut i: usize = 0;
    while i < ms.len()
        invariant
            i <= ms@.len(),
            milestone_from(ms@, major@, i as int) == milestone_from(ms@, major@, 0),
        decreases ms@.len() - i,
    {
        if str_eq(ms[i].major.as_str(), major) {
            return Some(i);
        }
        i = i + 1;
    }
    None
}

fn find_artifact(arts: &Vec<Artifact>, p: &str) -> (r: Option<usize>)
    ensures
        match r {
            Some(i) => artifact_from(arts@, p@, 0) == Some(i as int) && i < arts@.len(),
            None => artifact_from(arts@, p@, 0) is None,
        },
{
    let mut i: usize = 0;
    while i < arts.len()
        invariant
            i <= arts@.len(),
            artifact_from(arts@, p@, i as int) == artifact_from(arts@, p@, 0),
        decreases arts@.len() - i,
    {
        if str_eq(arts[i].platform.as_str(), p) {
            return Some(i);
        }
        i = i + 1;
    }
    None
}

/// The URL of the driver download for the first platform, in order of
/// preference, that has one.
pub fn pick_artifact(arts: &Vec<Artifact>, platforms: &Vec<String>) -> (r: Option<String>)
    ensures
        match r {
            Some(u) => url_for(arts@, strs(platforms@), 0) == Some(u@),
            None => url_for(arts@, strs(platforms@), 0) is None,
        },
{
    let ghost ps = strs(platforms@);
    let mut j: usize = 0;
    while j < platforms.len()
        invariant
            j <= platforms@.len(),
            ps == strs(platforms@),
            url_for(arts@, ps, j as int) == url_for(arts@, ps, 0),
        decreases platforms@.len() - j,
    {
        assert(ps[j as int] == platforms@[j as int]@);
        match find_artifact(arts, platforms[j].as_str()) {
            Some(i) => {
                return Some(arts[i].url.clone());
            },
            None => {},
        }
        j = j + 1;
    }
    None
}

/// The driver URL for Chrome `major` from the milestone list, for the
/// platforms of this machine in order of preference; or why there is none.
pub fn driver_url(ms: &Vec<Milestone>, major: &str, platforms: &Vec<String>) -> (r: Result<String, DriverError>)
    ensures
        match driver_url_spec(ms@, major@, strs(platforms@)) {
            DriverOutcome::Url(u) => r matches Ok(s) && s@ == u,
            DriverOutcome::NoMilestone => r matches Err(DriverError::NoMilestone { major: m }) && m@ == major@,
            DriverOutcome::NoDownloads => r matches Err(DriverError::NoDownloads),
            DriverOutcome::NoPlatform => r matches Err(DriverError::NoPlatform),
        },
{
    match find_milestone(ms, major) {
        None => Err(DriverError::NoMilestone { major: String::from_str(major) }),
        Some(m) => match &ms[m].chromedriver {
            None => Err(DriverError::NoDownloads),
            Some(arts) => match pick_artifact(arts, platforms) {
                Some(u) => Ok(u),
                None => Err(DriverError::NoPlatform),
            },
        },
    }
}

/// The platforms whose drivers run on this machine, in order of
/// preference, from its OS and architecture.
pub open spec fn platforms_spec(os: Seq<char>, arch: Seq<char>) -> Seq<Seq<char>> {
    if os == "windows"@ && arch == "x86_64"@ {
        seq!["win64"@, "win32"@]
    } else if os == "windows"@ && arch == "x86"@ {
        seq!["win32"@]
    } else if os == "macos"@ && arch == "aarch64"@ {
        seq!["mac-arm64"@, "mac-x64"@]
    } else if os == "macos"@ && arch == "x86_64"@ {
        seq!["mac-x64"@]
    } else if os == "linux"@ && (arch == "x86_64"@ || arch == "aarch64"@) {
        seq!["linux64"@]
    } else {
        Seq::empty()
    }
}

/// The platforms whose drivers run on a machine with this OS and
/// architecture, in order of preference.
pub fn platforms_for(os: &str, arch: &str) -> (v: Vec<String>)
    ensures
        strs(v@) == platforms_spec(os@, arch@),
{
    let mut v: Vec<String> = Vec::new();
    if str_eq(os, "windows") && str_eq(arch, "x86_64") {
        push_str(&mut v, "win64");
        push_str(&mut v, "win32");
    } else if str_eq(os, "windows") && str_eq(arch, "x86") {
        push_str(&mut v, "win32");
    } else if str_eq(os, "macos") && str_eq(arch, "aarch64") {
        push_str(&mut v, "mac-arm64");
        push_str(&mut v, "mac-x64");
    } else if str_eq(os, "macos") && str_eq(arch, "x86_64") {
        push_str(&mut v, "mac-x64");
    } else if str_eq(os, "linux") && (str_eq(arch, "x86_64") || str_eq(arch, "aarch64")) {
        push_str(&mut v, "linux64");
    }
    assert(strs(v@) =~= platforms_spec(os@, arch@));
    v
}

/// The file name of the driver: with `.exe` on Windows.
pub fn driver_filename(windows: bool) -> (r: &'static str)
    ensures
        r@ == if windows {
            "chromedriver.exe"@
        } else {
            "chromedriver"@
        },
{
    if windows {
        "chromedriver.exe"
    } else {
        "chromedriver"
    }
}

} // verus!
