use redstrap::consts::{ALLOWLIST_APP_PLAYER, ALLOWLIST_APP_STUDIO};
use redstrap::deployment::{allowlist_path, is_default_channel, location};
use redstrap::updater::is_newer;

#[test]
fn channel_matching() {
    assert!(is_default_channel("production"));
    assert!(is_default_channel("LIVE"));
    assert!(!is_default_channel("zekk"));
}

#[test]
fn locations_are_built_correctly() {
    assert_eq!(
        location("https://setup.rbxcdn.com", "production", "/v-1-x.zip"),
        "https://setup.rbxcdn.com/v-1-x.zip"
    );
    assert_eq!(
        location("https://setup.rbxcdn.com/", "zekk", "/v-1-x.zip"),
        "https://setup.rbxcdn.com/channel/common/v-1-x.zip"
    );
}

#[test]
fn version_newness() {
    assert!(is_newer("1.0.0", "1.0.1"));
    assert!(is_newer("1.9.0", "1.10.0"));
    assert!(!is_newer("2.0.0", "2.0.0"));
    assert!(!is_newer("2.0.1", "2.0.0"));
}

#[test]
fn mirrors_and_probes() {
    let urls = redstrap::deployment::base_urls();
    assert_eq!(urls.len(), 5);
    assert_eq!(urls[0], ("https://setup.rbxcdn.com", 0));
    assert_eq!(redstrap::deployment::probe_url("https://m"), "https://m/versionStudio");
    assert!(redstrap::deployment::check_probe_body("https://m", " version-012732894899482c\n").is_ok());
    match redstrap::deployment::check_probe_body("https://m", "nope") {
        Err(redstrap::error::RedStrapError::Other(m)) => {
            assert_eq!(m, "mirror https://m returned unexpected versionStudio body")
        }
        _ => panic!("expected a mismatch"),
    }
    match redstrap::deployment::no_mirror(None) {
        redstrap::error::RedStrapError::Other(m) => assert_eq!(m, "all setup mirrors failed"),
        _ => panic!(),
    }
}

#[test]
fn client_version_queries() {
    let q = redstrap::deployment::version_query("  ", "WindowsPlayer");
    assert_eq!(q.channel, "production");
    assert!(q.is_default);
    assert_eq!(q.path, "/v2/client-version/WindowsPlayer");
    let q = redstrap::deployment::version_query(" zBeta ", "WindowsPlayer");
    assert_eq!(q.channel, "zBeta");
    assert!(!q.is_default);
    assert_eq!(q.path, "/v2/client-version/WindowsPlayer/channel/zBeta");
    let (cdn, origin) = redstrap::deployment::version_urls("roblox.com", &q.path);
    assert_eq!(cdn, "https://clientsettingscdn.roblox.com/v2/client-version/WindowsPlayer/channel/zBeta");
    assert_eq!(origin, "https://clientsettings.roblox.com/v2/client-version/WindowsPlayer/channel/zBeta");
    assert!(redstrap::deployment::channel_rejection(true, 404, "production").is_none());
    assert!(redstrap::deployment::channel_rejection(false, 500, "x").is_none());
    match redstrap::deployment::channel_rejection(false, 403, "x") {
        Some(redstrap::error::RedStrapError::InvalidChannel { channel, status }) => {
            assert_eq!((channel.as_str(), status), ("x", 403))
        }
        _ => panic!(),
    }
    assert_eq!(
        redstrap::deployment::private_probe_url("roblox.com", "Production"),
        "https://clientsettingscdn.roblox.com/v2/client-version/WindowsPlayer/channel/live"
    );
    assert!(redstrap::deployment::status_means_private(401));
    assert!(!redstrap::deployment::status_means_private(200));
    assert!(!redstrap::deployment::status_means_private(500));
}

#[test]
fn allowlist_paths_use_buckets_for_other_channels() {
    assert_eq!(
        allowlist_path(ALLOWLIST_APP_PLAYER, "Production"),
        "/v2/settings/application/PCDesktopClient"
    );
    assert_eq!(
        allowlist_path(ALLOWLIST_APP_STUDIO, "ZEKK"),
        "/v2/settings/application/PCStudioClient/bucket/zekk"
    );
    assert_eq!(
        allowlist_path(ALLOWLIST_APP_PLAYER, "LIVE"),
        "/v2/settings/application/PCDesktopClient/bucket/live"
    );
}

#[test]
fn lookup_urls_follow_the_configured_domain() {
    assert_eq!(
        redstrap::shortcuts::game_list_url("", 42),
        "https://games.roblox.com/v1/games?universeIds=42"
    );
    assert_eq!(
        redstrap::shortcuts::game_icon_url(" example.com ", 7),
        "https://thumbnails.example.com/v1/games/icons?universeIds=7&size=512x512&format=Png&isCircular=false"
    );
    assert_eq!(redstrap::shortcuts::user_url("roblox.com", 1), "https://users.roblox.com/v1/users/1");
    assert_eq!(
        redstrap::updater::latest_release_url("o", "r"),
        "https://api.github.com/repos/o/r/releases/latest"
    );
    assert_eq!(
        redstrap::updater::releases_url("o", "r"),
        "https://api.github.com/repos/o/r/releases?per_page=20"
    );
}
