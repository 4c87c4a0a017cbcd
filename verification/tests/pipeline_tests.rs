use redstrap::error::RedStrapError;
use redstrap::gbs::Property;
use redstrap::manifest::Package;
use redstrap::pipeline::{
    check_package_list, checked_packed_bytes, entry_destination, gbs_updates, gpu_preference_edit, layers_edit,
    live_versions, manifest_url, package_url, packages_to_fetch, pinned_version, plan_install,
    should_prune_staged, should_prune_version, total_packed_bytes, InstallPlan, RegistryEdit,
};
use redstrap::settings::{GpuPreference, MSAAMode, Settings};
use redstrap::state::{DistributionState, State};

fn pkg(name: &str, sig: &str, size: u64) -> Package {
    Package { name: name.to_string(), signature: sig.to_string(), packed_size: size, size: size * 2 }
}

fn dist(guid: &str) -> DistributionState {
    let mut d = DistributionState::default();
    d.version_guid = guid.to_string();
    d
}

#[test]
fn pins_are_trimmed_and_blank_pins_ignored() {
    assert_eq!(pinned_version(Some("  version-abc ")), Some(String::from("version-abc")));
    assert_eq!(pinned_version(Some("   ")), None);
    assert_eq!(pinned_version(None), None);
}

#[test]
fn install_plans() {
    let d = dist("version-a");
    assert_eq!(plan_install(false, true, false, &d, "version-a", true, true).unwrap(), InstallPlan::UpToDate);
    assert_eq!(plan_install(true, true, false, &d, "version-a", true, true).unwrap(), InstallPlan::Install);
    assert_eq!(plan_install(false, true, false, &d, "version-b", false, true).unwrap(), InstallPlan::Install);
    assert_eq!(plan_install(false, false, false, &d, "version-b", false, true).unwrap(), InstallPlan::UseInstalled);
    assert_eq!(plan_install(false, false, true, &d, "version-b", false, true).unwrap(), InstallPlan::Install);
    let blocked = plan_install(false, false, false, &dist(""), "version-b", false, false).unwrap_err();
    assert!(matches!(blocked, RedStrapError::NotInstalledUpdatesBlocked));
}

#[test]
fn urls_and_package_list() {
    assert_eq!(
        manifest_url("https://m/", "production", "version-a"),
        "https://m/version-a-rbxPkgManifest.txt"
    );
    assert_eq!(package_url("https://m", "zbeta", "App.zip"), "https://m/channel/common/App.zip");
    assert!(check_package_list(&[]).is_err());
    assert!(check_package_list(&[pkg("a.zip", "s", 1)]).is_ok());
}

#[test]
fn only_stale_packages_are_fetched() {
    let mut d = dist("version-a");
    d.record_package(String::from("a.zip"), String::from("aaa"));
    d.record_package(String::from("b.zip"), String::from("bbb"));
    let packages = vec![pkg("a.zip", "aaa", 10), pkg("b.zip", "new", 20), pkg("c.zip", "ccc", 30)];
    let staged = vec![Some(10), Some(20), None];
    let fetch = packages_to_fetch(&packages, &d, &staged);
    let names: Vec<&str> = fetch.iter().map(|p| p.name.as_str()).collect();
    assert_eq!(names, vec!["b.zip", "c.zip"]);
    let wrong_size = vec![Some(9), Some(20), None];
    assert_eq!(packages_to_fetch(&packages, &d, &wrong_size).len(), 3);
    assert_eq!(total_packed_bytes(&packages), 60);
}

#[test]
fn downloads_are_checked_before_being_recorded() {
    let mut d = dist("version-a");
    assert!(d.accept_download(String::from("a.zip"), String::from("ABCDEF"), String::from("abcdef")).is_ok());
    assert_eq!(d.recorded_signature("a.zip").map(|s| s.as_str()), Some("ABCDEF"));
    match d.accept_download(String::from("b.zip"), String::from("00"), String::from("11")) {
        Err(RedStrapError::Checksum { file, expected, actual }) => {
            assert_eq!((file.as_str(), expected.as_str(), actual.as_str()), ("b.zip", "00", "11"));
        }
        _ => panic!("expected a checksum error"),
    }
    assert!(d.recorded_signature("b.zip").is_none());
    d.record_package(String::from("a.zip"), String::from("new"));
    assert_eq!(d.package_hashes.len(), 1);
}

#[test]
fn settings_file_updates_follow_settings() {
    let mut s = Settings::default();
    s.use_flag_manager = true;
    s.fps_cap = 144;
    s.msaa = MSAAMode::X4;
    s.disable_vsync = true;
    let u = gbs_updates(&s);
    let expected = vec![
        Property { class: "RenderSettings".into(), name: "FramerateCap".into(), value: "144".into() },
        Property { class: "RenderSettings".into(), name: "MSAALevel".into(), value: "4".into() },
        Property { class: "RenderSettings".into(), name: "VSyncDisabled".into(), value: "True".into() },
    ];
    assert_eq!(u, expected);
    s.gbs_framerate_cap = Some(-1);
    assert_eq!(gbs_updates(&s)[0].value, "-1");
    let plain = Settings::default();
    assert!(gbs_updates(&plain).is_empty() || plain.use_flag_manager);
}

#[test]
fn os_preference_values() {
    assert!(matches!(gpu_preference_edit(GpuPreference::System), RegistryEdit::Delete));
    match gpu_preference_edit(GpuPreference::HighPerformance) {
        RegistryEdit::Write(v) => assert_eq!(v, "GpuPreference=2;"),
        _ => panic!(),
    }
    match layers_edit(Some("~ RUNASADMIN HIGHDPIAWARE"), false, true) {
        RegistryEdit::Write(v) => assert_eq!(v, "~ RUNASADMIN DISABLEDXMAXIMIZEDWINDOWEDMODE"),
        _ => panic!(),
    }
    assert!(matches!(layers_edit(Some("~ HIGHDPIAWARE"), false, false), RegistryEdit::Delete));
    assert!(matches!(layers_edit(None, false, false), RegistryEdit::Delete));
    match layers_edit(None, true, true) {
        RegistryEdit::Write(v) => assert_eq!(v, "HIGHDPIAWARE DISABLEDXMAXIMIZEDWINDOWEDMODE"),
        _ => panic!(),
    }
}

#[test]
fn mods_follow_the_folders_found() {
    let mut s = State::default();
    s.ensure_mod("gone");
    s.ensure_mod("kept");
    if let Some(e) = s.mod_entry_mut("kept") {
        e.studio = true;
        e.player = false;
    }
    let found = vec![String::from("kept"), String::from("new")];
    assert!(s.sync_mods(&found));
    let names: Vec<&str> = s.mods.iter().map(|m| m.file.as_str()).collect();
    assert_eq!(names, vec!["kept", "new"]);
    assert!(!s.sync_mods(&found));
    assert_eq!(s.active_mods(&found, false), vec![1]);
    assert_eq!(s.active_mods(&found, true), vec![0]);
}

#[test]
fn housekeeping_rules() {
    assert!(should_prune_version("version-old", "version-new"));
    assert!(!should_prune_version("version-new", "version-new"));
    assert!(!should_prune_version("Roblox", "version-new"));
    assert!(!should_prune_version("stuff", "version-new"));
    let live = live_versions(&dist("version-p"), &dist(""));
    assert_eq!(live, vec![String::from("version-p")]);
    assert!(!should_prune_staged("version-p", "version-n", &live));
    assert!(!should_prune_staged("version-n", "version-n", &live));
    assert!(should_prune_staged("version-x", "version-n", &live));
}

#[test]
fn zip_entries_stay_inside_the_install() {
    assert_eq!(entry_destination("/v", Some("content/a.png"), "content/a.png").unwrap(), "/v/content/a.png");
    let e = entry_destination("/v", None, "../evil").unwrap_err();
    match e {
        RedStrapError::Extraction(m) => assert_eq!(m, "zip entry '../evil' would escape the install folder"),
        _ => panic!(),
    }
}

#[test]
fn download_totals_are_checked() {
    let packages = vec![pkg("a.zip", "x", 10), pkg("b.zip", "y", 32)];
    assert_eq!(checked_packed_bytes(&packages), Some(42));
    assert_eq!(checked_packed_bytes(&[]), Some(0));
    let huge = vec![Package { name: String::from("a"), signature: String::new(), packed_size: u64::MAX, size: 0 },
        pkg("b.zip", "y", 1)];
    assert_eq!(checked_packed_bytes(&huge), None);
}
