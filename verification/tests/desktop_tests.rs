use redstrap::desktop::{preview_is_current, server_value_shown, short_job, update_offer, visible_lines, Page, ReleaseInfo, SettingOption, UpdateOffer};
use redstrap::logging::LogLine;
use redstrap::settings::MSAAMode;
use redstrap::updater::{Release, ReleaseAsset};

fn line(level: &str, target: &str, message: &str) -> LogLine {
    LogLine { level: level.to_string(), target: target.to_string(), message: message.to_string() }
}

fn release_from_json(text: &str) -> Release {
    let v: serde_json::Value = serde_json::from_str(text).expect("parse");
    Release {
        tag: v["tag_name"].as_str().unwrap_or_default().to_string(),
        prerelease: v["prerelease"].as_bool().unwrap_or(false),
        draft: v["draft"].as_bool().unwrap_or(false),
        assets: v["assets"]
            .as_array()
            .map(|a| {
                a.iter()
                    .map(|x| ReleaseAsset {
                        name: x["name"].as_str().unwrap_or_default().to_string(),
                        download_url: x["browser_download_url"].as_str().unwrap_or_default().to_string(),
                    })
                    .collect()
            })
            .unwrap_or_default(),
    }
}

#[test]
fn release_parses_and_picks_exe() {
    let json = r#"{
        "tag_name": "v2.1.0",
        "assets": [
            {"name": "RedStrap-linux", "browser_download_url": "https://x/linux"},
            {"name": "RedStrap-win64.exe", "browser_download_url": "https://x/win.exe"}
        ]
    }"#;
    let release = release_from_json(json);
    assert_eq!(release.version(), "2.1.0");
    assert_eq!(
        release.windows_exe().map(|a| a.download_url.as_str()),
        Some("https://x/win.exe")
    );
}

#[test]
fn page_ids_roundtrip() {
    for p in Page::all() {
        assert_eq!(Page::from_id(p.id()), p);
    }
    assert_eq!(Page::from_id("nonsense"), Page::Overview);
    assert_eq!(Page::Flags.label(), "Fast Flags");
}

#[test]
fn log_viewer_filters_and_renders() {
    let lines = vec![
        line("INFO", "core", "Started"),
        line("WARN", "", "disk almost FULL"),
        line("INFO", "net", "full sync"),
    ];
    let all = visible_lines(&lines, "All", "");
    assert_eq!(all.len(), 3);
    assert_eq!(all[0], (String::from("INFO"), String::from("[core] Started")));
    assert_eq!(all[1], (String::from("WARN"), String::from("disk almost FULL")));
    let full = visible_lines(&lines, "All", "  Full ");
    assert_eq!(full.len(), 2);
    let info_net = visible_lines(&lines, "INFO", "NET");
    assert_eq!(info_net, vec![(String::from("INFO"), String::from("[net] full sync"))]);
    let many: Vec<LogLine> = (0..600).map(|i| line("INFO", "", &format!("m{i}"))).collect();
    let shown = visible_lines(&many, "All", "");
    assert_eq!(shown.len(), 500);
    assert_eq!(shown[0].1, "m100");
    assert_eq!(shown[499].1, "m599");
}

#[test]
fn release_summary_needs_a_launcher() {
    let release = Release {
        tag: String::from("v3.0.0"),
        prerelease: true,
        draft: false,
        assets: vec![
            ReleaseAsset { name: String::from("redstrap-settings.exe"), download_url: String::from("https://x/s") },
            ReleaseAsset { name: String::from("RedStrap.exe"), download_url: String::from("https://x/l") },
        ],
    };
    let info = ReleaseInfo::from_release(&release, true).expect("launcher present");
    assert_eq!(info.version, "3.0.0");
    assert!(info.prerelease);
    assert_eq!(info.launcher_url, "https://x/l");
    assert_eq!(info.settings_url.as_deref(), Some("https://x/s"));
    let bare = Release { tag: String::from("v1"), prerelease: false, draft: false, assets: vec![] };
    assert!(ReleaseInfo::from_release(&bare, true).is_none());
}

#[test]
fn setting_options_list_labels() {
    let labels: Vec<&str> = MSAAMode::options().into_iter().map(|m| m.option_label()).collect();
    assert_eq!(labels.len(), 4);
}

fn info(version: &str) -> ReleaseInfo {
    ReleaseInfo {
        version: version.to_string(),
        tag: format!("v{version}"),
        prerelease: false,
        launcher_url: String::from("https://example.invalid/RedStrap.exe"),
        settings_url: None,
    }
}

#[test]
fn skipped_versions_are_not_offered() {
    assert!(matches!(update_offer(None, "1.2.0"), UpdateOffer::UpToDate));
    match update_offer(Some(info("1.2.0")), "1.2.0") {
        UpdateOffer::Skipped(v) => assert_eq!(v, "1.2.0"),
        other => panic!("unexpected {other:?}"),
    }
    match update_offer(Some(info("1.3.0")), "1.2.0") {
        UpdateOffer::Available(i) => assert_eq!(i.tag, "v1.3.0"),
        other => panic!("unexpected {other:?}"),
    }
}

#[test]
fn stale_previews_are_dropped() {
    assert!(preview_is_current(" 1818 ", 1818));
    assert!(!preview_is_current("1818", 920587237));
    assert!(preview_is_current("not a number", 0));
    assert!(!preview_is_current("", 5));
}

#[test]
fn long_job_ids_are_shortened() {
    assert_eq!(short_job("0123456789abcdef"), "01234567...");
    assert_eq!(short_job("0123456789abc"), "0123456789abc");
    assert_eq!(short_job(""), "");
}

#[test]
fn empty_server_values_are_hidden() {
    assert!(server_value_shown("128.116.1.1"));
    assert!(!server_value_shown("   "));
    assert!(!server_value_shown(":"));
    assert!(!server_value_shown("0"));
    assert!(server_value_shown(" 0 "));
}
