use redstrap::paths::{
    cache_dir, default_base_dir, desktop_dir, home_dir, join_path, local_app_data, profile_path,
    resolve_base_dir, roblox_data_dir, start_menu_programs_dir, version_paths, HostEnv, HostOs,
    Layout,
};
use redstrap::roblox::LaunchMode;

fn env(os: HostOs) -> HostEnv {
    HostEnv {
        os,
        user_profile: None,
        home: Some(String::from("/home/u")),
        local_app_data: None,
        app_data: None,
        xdg_data_home: None,
        xdg_cache_home: None,
        temp_dir: String::from("/tmp"),
    }
}

#[test]
fn joining_follows_path_rules() {
    assert_eq!(join_path("/a", "b"), "/a/b");
    assert_eq!(join_path("/a/", "b"), "/a/b");
    assert_eq!(join_path("", "b"), "b");
    assert_eq!(join_path("/a", "/etc"), "/etc");
}

#[test]
fn unix_defaults() {
    let e = env(HostOs::Unix);
    assert_eq!(home_dir(&e), Some(String::from("/home/u")));
    assert_eq!(local_app_data(&e), Some(String::from("/home/u/.local/share")));
    assert_eq!(cache_dir(&e), Some(String::from("/home/u/.cache")));
    assert_eq!(desktop_dir(&e), Some(String::from("/home/u/Desktop")));
    assert_eq!(start_menu_programs_dir(&e), None);
    assert_eq!(default_base_dir(&e), "/home/u/.local/share/redstrap");
    assert_eq!(roblox_data_dir(&e), "/home/u/.redstrap-roblox");
    let mut x = env(HostOs::Unix);
    x.xdg_data_home = Some(String::from("/data"));
    x.xdg_cache_home = Some(String::from("/cache"));
    assert_eq!(local_app_data(&x), Some(String::from("/data")));
    assert_eq!(cache_dir(&x), Some(String::from("/cache")));
}

#[test]
fn windows_and_mac_defaults() {
    let mut w = env(HostOs::Windows);
    w.user_profile = Some(String::from("C:/Users/u"));
    w.local_app_data = Some(String::from("C:/Users/u/AppData/Local"));
    w.app_data = Some(String::from("C:/Users/u/AppData/Roaming"));
    assert_eq!(home_dir(&w), Some(String::from("C:/Users/u")));
    assert_eq!(default_base_dir(&w), "C:/Users/u/AppData/Local/RedStrap");
    assert_eq!(roblox_data_dir(&w), "C:/Users/u/AppData/Local/Roblox");
    assert_eq!(
        start_menu_programs_dir(&w),
        Some(String::from("C:/Users/u/AppData/Roaming/Microsoft/Windows/Start Menu/Programs"))
    );
    let m = env(HostOs::MacOs);
    assert_eq!(local_app_data(&m), Some(String::from("/home/u/Library/Application Support")));
    assert_eq!(cache_dir(&m), Some(String::from("/home/u/Library/Caches")));
    let mut none = env(HostOs::Other);
    none.home = None;
    assert_eq!(default_base_dir(&none), ".redstrap");
    assert_eq!(roblox_data_dir(&none), ".redstrap-roblox");
}

#[test]
fn base_dir_resolution_order() {
    let e = env(HostOs::Unix);
    assert_eq!(resolve_base_dir(Some(String::from("/p")), Some(String::from("/x")), None, &e), "/p");
    assert_eq!(resolve_base_dir(Some(String::new()), Some(String::from("/x")), None, &e), "/x");
    assert_eq!(resolve_base_dir(None, None, Some(String::from("/r")), &e), "/home/u/.local/share/redstrap");
    let w = env(HostOs::Windows);
    assert_eq!(resolve_base_dir(None, None, Some(String::from("/r")), &w), "/r");
}

#[test]
fn layout_places_everything_under_base() {
    let e = env(HostOs::Unix);
    let l = Layout::new("/b", &e);
    assert_eq!(l.downloads, "/b/Downloads");
    assert_eq!(l.preset_modifications, "/b/Modifications/Preset Modifications");
    assert_eq!(l.game_shortcuts, "/b/Cache/GameShortcuts");
    assert_eq!(l.working_flags_file, "/b/ClientSettings/ClientAppSettings.json");
    assert_eq!(l.roblox_logs, "/home/u/.redstrap-roblox/logs");
    assert_eq!(l.roblox_temp, "/tmp/Roblox");
    assert_eq!(l.application, "/b/RedStrap");
    assert_eq!(l.settings_app(), "/b/RedStrap-Settings");
    assert_eq!(l.dist_state_path(LaunchMode::Player), "/b/PlayerState.json");
    assert_eq!(l.dist_state_path(LaunchMode::Studio), "/b/StudioState.json");
    let w = Layout::new("C:/b", &env(HostOs::Windows));
    assert_eq!(w.application, "C:/b/RedStrap.exe");
    assert_eq!(w.settings_app(), "C:/b/RedStrap-Settings.exe");
}

#[test]
fn version_and_profile_paths() {
    let l = Layout::new("/b", &env(HostOs::Unix));
    let (dir, exe) = version_paths(&l, LaunchMode::Player, "version-abc", false);
    assert_eq!(dir, "/b/Versions/version-abc");
    assert_eq!(exe, "/b/Versions/version-abc/RobloxPlayerBeta.exe");
    let (dir, exe) = version_paths(&l, LaunchMode::Studio, "version-abc", true);
    assert_eq!(dir, "/b/Versions/Roblox");
    assert_eq!(exe, "/b/Versions/Roblox/RobloxStudioBeta.exe");
    assert_eq!(profile_path("/p", "My: Profile"), "/p/My_ Profile.json");
}
