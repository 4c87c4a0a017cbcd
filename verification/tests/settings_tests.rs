use redstrap::fastflags::FlagStore;
use redstrap::foreign::import_from_foreign_json;
use redstrap::launch::{
    cleaner_summary, instance_count, integrations_to_start, wants_priority_change, watcher_args,
    watcher_needed,
};
use redstrap::roblox::LaunchMode;
use redstrap::settings::{
    CleanerMode, CustomIntegration, MSAAMode, ProcessPriority, RenderingMode, Settings,
    UpdateChannel,
};

#[test]
fn defaults_validate_cleanly() {
    let mut s = Settings::default();
    s.validate();
    assert_eq!(s.channel, "production");
    assert_eq!(s.instances_count, 2);
}

#[test]
fn validation_repairs_garbage() {
    let mut s = Settings::default();
    s.instances_count = 99;
    s.frm_quality = 200;
    s.ui_scale_bits = f32::NAN.to_bits();
    s.channel = String::from("   ");
    s.validate();
    assert_eq!(s.instances_count, 8);
    assert_eq!(s.frm_quality, 21);
    assert_eq!(f32::from_bits(s.ui_scale_bits), 1.0);
    assert_eq!(s.channel, "production");
}

#[test]
fn ui_scale_bounds_follow_float_order() {
    for (value, kept) in [
        (0.5f32, true),
        (3.0, true),
        (1.25, true),
        (0.49, false),
        (3.01, false),
        (-1.0, false),
        (f32::INFINITY, false),
        (-0.0, false),
    ] {
        let mut s = Settings::default();
        s.ui_scale_bits = value.to_bits();
        s.validate();
        let expect = if kept { value } else { 1.0 };
        assert_eq!(f32::from_bits(s.ui_scale_bits), expect, "value {value}");
        assert_eq!((0.5..=3.0).contains(&value) && value.is_finite(), kept);
    }
}

#[test]
fn validation_trims_and_drops_blanks() {
    let mut s = Settings::default();
    s.roblox_domain = String::from("  example.com ");
    s.update_repo = String::from("\t");
    s.discord_client_id = String::from(" 123 ");
    s.gbs_framerate_cap = Some(-5);
    s.instance_delay_ms = 99_999;
    s.fps_cap = 5000;
    s.texture_quality = 9;
    s.cleaner_extra_dirs = vec![String::from(" "), String::from("/tmp/x")];
    let mut keep = CustomIntegration::default();
    keep.name = String::from("   ");
    keep.exe = String::from("tool");
    let mut blank = CustomIntegration::default();
    blank.name = String::from(" ");
    s.custom_integrations = vec![blank, keep];
    s.validate();
    assert_eq!(s.roblox_domain, "example.com");
    assert_eq!(s.update_repo, "realkyx29-design/Redstrap-TEST-");
    assert_eq!(s.discord_client_id, "123");
    assert_eq!(s.gbs_framerate_cap, Some(1));
    assert_eq!(s.instance_delay_ms, 30_000);
    assert_eq!(s.fps_cap, 1000);
    assert_eq!(s.texture_quality, 4);
    assert_eq!(s.cleaner_extra_dirs, vec!["/tmp/x"]);
    assert_eq!(s.custom_integrations.len(), 1);
    assert_eq!(s.custom_integrations[0].exe, "tool");
    // A second pass changes nothing.
    let before = s.clone();
    s.validate();
    assert_eq!(s.roblox_domain, before.roblox_domain);
    assert_eq!(s.custom_integrations, before.custom_integrations);
    assert_eq!(s.cleaner_extra_dirs, before.cleaner_extra_dirs);
}

#[test]
fn foreign_import_maps_keys() {
    let foreign = r#"{
        "ConfirmLaunches": false,
        "Channel": "zekk",
        "SelectedProcessPriority": 4,
        "UpdateChecks": 0,
        "CleanerOptions": 2,
        "UnknownFutureKey": 123
    }"#;
    let s = import_from_foreign_json(foreign);
    assert!(!s.confirm_launches);
    assert_eq!(s.channel, "zekk");
    assert_eq!(s.process_priority, ProcessPriority::High);
    assert_eq!(s.update_check, UpdateChannel::Disabled);
    assert_eq!(s.cleaner, CleanerMode::OnClose);
}

#[test]
fn foreign_import_edges() {
    let s = import_from_foreign_json("[1, 2]");
    assert!(s.confirm_launches);
    assert_eq!(s.channel, "production");
    let s = import_from_foreign_json("not json");
    assert_eq!(s.instances_count, 2);
    let s = import_from_foreign_json(
        r#"{"MultibloxInstanceCount": 50, "Channel": "  ", "MultibloxDelayMs": 5.5, "UpdateChecks": 4294967298, "AutoRejoin": "yes"}"#,
    );
    assert_eq!(s.instances_count, 8);
    assert_eq!(s.channel, "production");
    assert_eq!(s.instance_delay_ms, 1500);
    // 2^32 + 2 is truncated to 2.
    assert_eq!(s.update_check, UpdateChannel::PreRelease);
    assert!(!s.auto_rejoin);
}

#[test]
fn performance_flags_are_applied() {
    let mut s = Settings::default();
    s.fps_cap = 144;
    s.msaa = MSAAMode::X4;
    s.rendering_mode = RenderingMode::Vulkan;
    s.gray_sky = true;
    let mut flags = FlagStore::new();
    s.apply_performance_flags(&mut flags);
    assert_eq!(flags.get("DFIntTaskSchedulerTargetFps"), Some("144"));
    assert_eq!(flags.get("FIntDebugForceMSAASamples"), Some("4"));
    assert_eq!(flags.get("FFlagDebugGraphicsPreferVulkan"), Some("True"));
    assert_eq!(flags.get("FFlagDebugSkyGray"), Some("True"));
    assert_eq!(flags.get("FFlagHandleAltEnterFullscreenManually"), Some("False"));
    s.use_flag_manager = false;
    s.apply_performance_flags(&mut flags);
    assert_eq!(flags.get("DFIntTaskSchedulerTargetFps"), None);
    assert_eq!(flags.get("FFlagHandleAltEnterFullscreenManually"), None);
}

#[test]
fn launch_plan_helpers() {
    let mut s = Settings::default();
    assert_eq!(instance_count(&s, LaunchMode::Player), 1);
    s.multi_instance_launching = true;
    s.instances_count = 0;
    assert_eq!(instance_count(&s, LaunchMode::Player), 1);
    s.instances_count = 3;
    assert_eq!(instance_count(&s, LaunchMode::Player), 3);
    assert_eq!(instance_count(&s, LaunchMode::Studio), 1);
    assert!(watcher_needed(&s));
    s.activity_tracking = false;
    s.playtime_counter = false;
    s.show_server_details = false;
    s.discord_client_id = String::from("   ");
    assert!(!watcher_needed(&s));
    s.discord_client_id = String::from("42");
    assert!(watcher_needed(&s));
    assert_eq!(
        watcher_args(77, LaunchMode::StudioAuth),
        vec!["--watcher", "--pid", "77", "--mode", "studio-auth", "--quiet"]
    );
    assert!(!wants_priority_change(&s));
    s.process_priority = ProcessPriority::High;
    assert!(wants_priority_change(&s));
    let mut a = CustomIntegration::default();
    a.exe = String::from("  /bin/tool ");
    a.args = String::from(" -x \"a b\" ");
    let mut b = CustomIntegration::default();
    b.exe = String::from("/bin/off");
    b.enabled = false;
    s.custom_integrations = vec![a, b];
    let cmds = integrations_to_start(&s);
    assert_eq!(cmds.len(), 1);
    assert_eq!(cmds[0].program, "/bin/tool");
    assert_eq!(cmds[0].args, vec!["-x", "a b"]);
    assert_eq!(cleaner_summary(3, 1536), "Cleaned 3 file(s), 1.5 KB.");
}
