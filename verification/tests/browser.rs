use crude::browser::{
    chrome_args, chrome_major, driver_filename, driver_is_current, driver_major_from_output, driver_url,
    linux_version_from_output, pick_artifact, platforms_for, split_words, Artifact, DeviceType, DriverError,
    Milestone, DESKTOP_USER_AGENT, MOBILE_USER_AGENT,
};

fn s(x: &str) -> String {
    x.to_string()
}

#[test]
fn chrome_args_start_with_agent_and_headless_switch() {
    let a = chrome_args(DeviceType::Mobile, true);
    assert_eq!(a[0], format!("--user-agent={}", MOBILE_USER_AGENT));
    assert_eq!(a[1], "--headless=new");
    assert_eq!(a[2], "--log-level=3");
    assert_eq!(a.len(), 19);
    assert_eq!(a[18], "--start-maximized");
    let d = chrome_args(DeviceType::Desktop, false);
    assert_eq!(d[0], format!("--user-agent={}", DESKTOP_USER_AGENT));
    assert_eq!(d.len(), 18);
    assert!(!d.iter().any(|x| x.starts_with("--headless")));
    assert!(d.iter().any(|x| x == "--window-size=1920,1080"));
}

#[test]
fn chrome_major_reads_first_component() {
    assert_eq!(chrome_major("143.0.7499.192"), 143);
    assert_eq!(chrome_major("120"), 120);
    assert_eq!(chrome_major(""), 0);
    assert_eq!(chrome_major("abc.1"), 0);
}

#[test]
fn words_split_at_whitespace() {
    assert_eq!(split_words("  ChromeDriver  143.0.1 (abc)\n"), vec![s("ChromeDriver"), s("143.0.1"), s("(abc)")]);
    assert!(split_words(" \t ").is_empty());
}

#[test]
fn driver_version_output() {
    assert_eq!(
        driver_major_from_output("ChromeDriver 143.0.7499.192 (5d4f1d9d-refs/branch-heads/7499@{#2100})"),
        Some(143)
    );
    assert_eq!(driver_major_from_output("ChromeDriver"), None);
    assert_eq!(driver_major_from_output("ChromeDriver x.1"), None);
}

#[test]
fn linux_chrome_version_output() {
    assert_eq!(linux_version_from_output("Google Chrome 143.0.1234.56\n"), Some(s("143.0.1234.56")));
    assert_eq!(linux_version_from_output("Chromium 120.0 snap"), None);
    assert_eq!(linux_version_from_output(""), None);
}

#[test]
fn driver_is_current_needs_equal_major() {
    assert!(driver_is_current(Some(143), 143));
    assert!(!driver_is_current(Some(142), 143));
    assert!(!driver_is_current(None, 143));
}

fn milestones() -> Vec<Milestone> {
    vec![
        Milestone { major: s("142"), chromedriver: None },
        Milestone {
            major: s("143"),
            chromedriver: Some(vec![
                Artifact { platform: s("linux64"), url: s("https://x/linux64.zip") },
                Artifact { platform: s("mac-x64"), url: s("https://x/mac-x64.zip") },
                Artifact { platform: s("win32"), url: s("https://x/win32.zip") },
            ]),
        },
    ]
}

#[test]
fn driver_url_picks_platform_in_preference_order() {
    let ms = milestones();
    assert_eq!(driver_url(&ms, "143", &platforms_for("linux", "x86_64")), Ok(s("https://x/linux64.zip")));
    assert_eq!(driver_url(&ms, "143", &platforms_for("macos", "aarch64")), Ok(s("https://x/mac-x64.zip")));
    assert_eq!(driver_url(&ms, "143", &platforms_for("windows", "x86_64")), Ok(s("https://x/win32.zip")));
}

#[test]
fn driver_url_errors() {
    let ms = milestones();
    let e = driver_url(&ms, "999", &platforms_for("linux", "x86_64")).unwrap_err();
    assert_eq!(e, DriverError::NoMilestone { major: s("999") });
    assert_eq!(e.message(), "No driver info for Chrome version (999).\nBrowser might be too new or too old.");
    let e = driver_url(&ms, "142", &platforms_for("linux", "x86_64")).unwrap_err();
    assert_eq!(e, DriverError::NoDownloads);
    assert_eq!(e.message(), "Driver download list is empty.");
    let e = driver_url(&ms, "143", &platforms_for("freebsd", "x86_64")).unwrap_err();
    assert_eq!(e, DriverError::NoPlatform);
    assert_eq!(e.message(), "Could not find driver URL for current OS/Architecture.");
}

#[test]
fn platforms_by_machine() {
    assert_eq!(platforms_for("windows", "x86_64"), vec![s("win64"), s("win32")]);
    assert_eq!(platforms_for("windows", "x86"), vec![s("win32")]);
    assert_eq!(platforms_for("macos", "aarch64"), vec![s("mac-arm64"), s("mac-x64")]);
    assert_eq!(platforms_for("macos", "x86_64"), vec![s("mac-x64")]);
    assert_eq!(platforms_for("linux", "aarch64"), vec![s("linux64")]);
    assert!(platforms_for("linux", "riscv64").is_empty());
}

#[test]
fn pick_artifact_first_preferred() {
    let arts = vec![
        Artifact { platform: s("win32"), url: s("u32") },
        Artifact { platform: s("win64"), url: s("u64") },
    ];
    assert_eq!(pick_artifact(&arts, &vec![s("win64"), s("win32")]), Some(s("u64")));
    assert_eq!(pick_artifact(&arts, &vec![s("linux64")]), None);
}

#[test]
fn driver_file_name() {
    assert_eq!(driver_filename(true), "chromedriver.exe");
    assert_eq!(driver_filename(false), "chromedriver");
}
