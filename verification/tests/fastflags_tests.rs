use std::collections::BTreeSet;

use redstrap::fastflags::{apply_fps_cap, apply_rendering_mode, apply_texture_quality, is_preset_flag, preset_flag, FlagStore};
use redstrap::settings::RenderingMode;

#[test]
fn set_get_delete_and_changed() {
    let mut s = FlagStore::new();
    assert!(!s.changed());
    s.set("A", Some("1"));
    assert_eq!(s.get("A"), Some("1"));
    assert!(s.changed());
    s.mark_saved();
    assert!(!s.changed());
    s.set("A", None);
    assert_eq!(s.get("A"), None);
    assert!(s.changed());
}

#[test]
fn presets_roundtrip() {
    let mut s = FlagStore::new();
    s.set_preset("Rendering.MSAA1", Some("4"));
    assert_eq!(s.get("FIntDebugForceMSAASamples"), Some("4"));
    assert_eq!(s.get_preset("Rendering.MSAA1"), Some("4"));
    assert!(is_preset_flag("fintdebugforcemsaasamples"));
    assert!(!is_preset_flag("SomeRandomFlag"));
}

#[test]
fn exclusive_groups_clear_siblings() {
    let mut s = FlagStore::new();
    apply_rendering_mode(&mut s, RenderingMode::Vulkan);
    assert_eq!(s.get("FFlagDebugGraphicsPreferVulkan"), Some("True"));
    assert_eq!(s.get("FFlagDebugGraphicsPreferOpenGL"), None);
    apply_rendering_mode(&mut s, RenderingMode::Default);
    assert_eq!(s.get("FFlagDebugGraphicsPreferVulkan"), None);
}

#[test]
fn undo_redo_work() {
    let mut s = FlagStore::new();
    s.set("A", Some("1"));
    s.set("B", Some("2"));
    assert!(s.can_undo());
    s.undo();
    assert_eq!(s.get("B"), None);
    assert_eq!(s.get("A"), Some("1"));
    s.redo();
    assert_eq!(s.get("B"), Some("2"));
    s.undo();
    s.undo();
    assert!(s.is_empty());
    assert!(!s.can_undo());
}

#[test]
fn allowlist_partition() {
    let mut s = FlagStore::new();
    s.set("Known", Some("1"));
    s.set("Mystery", Some("2"));
    let allow: BTreeSet<String> = ["known".to_string()].into_iter().collect();
    let (known, unknown) = s.partition_by_allowlist(&allow);
    assert_eq!(known, vec![String::from("Known")]);
    assert_eq!(unknown, vec![String::from("Mystery")]);
    assert_eq!(s.retain_allowed(&allow), 1);
    assert_eq!(s.get("Mystery"), None);
}

#[test]
fn keys_are_trimmed_and_sorted() {
    let mut s = FlagStore::new();
    s.set("  Zeta ", Some("1"));
    s.set("Alpha", Some("2"));
    s.set("   ", Some("ignored"));
    let names: Vec<&str> = s.iter().iter().map(|(k, _)| k.as_str()).collect();
    assert_eq!(names, vec!["Alpha", "Zeta"]);
    assert_eq!(s.get("  Zeta "), None);
    assert_eq!(s.len(), 2);
}

#[test]
fn undo_history_is_bounded() {
    let mut s = FlagStore::new();
    for i in 0..60 {
        s.set("A", Some(&i.to_string()));
    }
    let mut undone = 0;
    while s.can_undo() {
        s.undo();
        undone += 1;
    }
    assert_eq!(undone, 50);
    assert_eq!(s.get("A"), Some("9"));
}

#[test]
fn undo_after_set_restores_previous_table() {
    let mut s = FlagStore::new();
    s.set("A", Some("1"));
    s.set("A", Some("2"));
    s.undo();
    assert_eq!(s.get("A"), Some("1"));
    s.redo();
    assert_eq!(s.get("A"), Some("2"));
}

#[test]
fn preset_helpers_write_expected_values() {
    let mut s = FlagStore::new();
    apply_fps_cap(&mut s, Some(144));
    assert_eq!(s.get("DFIntTaskSchedulerTargetFps"), Some("144"));
    apply_fps_cap(&mut s, Some(0));
    assert_eq!(s.get("DFIntTaskSchedulerTargetFps"), None);
    apply_texture_quality(&mut s, 3);
    assert_eq!(s.get("DFFlagTextureQualityOverrideEnabled"), Some("True"));
    assert_eq!(s.get("DFIntTextureQualityOverride"), Some("3"));
    assert_eq!(preset_flag("Graphic.GraySky"), Some("FFlagDebugSkyGray"));
    assert_eq!(preset_flag("Nope"), None);
}

#[test]
fn retain_without_removals_keeps_history() {
    let mut s = FlagStore::new();
    s.set("Known", Some("1"));
    let allow: BTreeSet<String> = ["KNOWN".to_string()].into_iter().collect();
    assert_eq!(s.retain_allowed(&allow), 0);
    assert_eq!(s.get("Known"), Some("1"));
    s.undo();
    assert!(s.is_empty());
}

#[test]
fn load_coerces_types() {
    let text = r#"{"a":"x","b":5,"c":true,"d":null,"e":[1]}"#;
    let (s, corrupt) = FlagStore::load(Some(text));
    assert!(!corrupt);
    assert_eq!(s.get("a"), Some("x"));
    assert_eq!(s.get("b"), Some("5"));
    assert_eq!(s.get("c"), Some("True"));
    assert_eq!(s.get("d"), None);
    assert_eq!(s.get("e"), None);
    assert!(!s.changed());
}

#[test]
fn load_reports_corrupt_files_and_skips_blank_names() {
    let (s, corrupt) = FlagStore::load(Some("not json"));
    assert!(corrupt);
    assert!(s.is_empty());
    let (s, corrupt) = FlagStore::load(None);
    assert!(!corrupt && s.is_empty());
    let (s, corrupt) = FlagStore::load(Some(r#"{"  ":"1","z":false,"n":-2.5}"#));
    assert!(!corrupt);
    assert_eq!(s.len(), 2);
    assert_eq!(s.get("z"), Some("False"));
    assert_eq!(s.get("n"), Some("-2.5"));
    assert!(FlagStore::from_json("[1,2]").is_none());
}

#[test]
fn save_text_roundtrips_through_load() {
    let mut s = FlagStore::new();
    s.set("FFlagB", Some("True"));
    s.set("DFIntA", Some("4"));
    let text = s.to_json();
    assert_eq!(text, "{\n  \"DFIntA\": \"4\",\n  \"FFlagB\": \"True\"\n}");
    let (back, corrupt) = FlagStore::load(Some(&text));
    assert!(!corrupt);
    assert_eq!(back.get("DFIntA"), Some("4"));
    assert_eq!(back.get("FFlagB"), Some("True"));
    assert_eq!(back.len(), 2);
}

#[test]
fn flag_rows_filter_and_sort_ignoring_case() {
    let mut s = FlagStore::new();
    s.set("beta", Some("True"));
    s.set("Alpha", Some("4"));
    s.set("FFlagGamma", Some("False"));
    let rows = s.rows("", false, None);
    let names: Vec<&str> = rows.iter().map(|r| r.0.as_str()).collect();
    assert_eq!(names, vec!["Alpha", "beta", "FFlagGamma"]);
    assert!(rows.iter().all(|r| r.2));

    let hits = s.rows("  TRUE ", false, None);
    assert_eq!(hits, vec![(String::from("beta"), String::from("True"), true)]);

    let allow: BTreeSet<String> = ["ALPHA".to_string()].into_iter().collect();
    let unknown = s.rows("", true, Some(&allow));
    let names: Vec<&str> = unknown.iter().map(|r| r.0.as_str()).collect();
    assert_eq!(names, vec!["beta", "FFlagGamma"]);
    assert!(unknown.iter().all(|r| !r.2));
    let all = s.rows("a", false, Some(&allow));
    assert_eq!(all[0], (String::from("Alpha"), String::from("4"), true));
    assert_eq!(all.len(), 3);
}

#[test]
fn preset_group_sets_every_member_and_undoes_at_once() {
    let mut s = FlagStore::new();
    s.set("Other", Some("7"));
    s.set("DFIntCSGLevelOfDetailSwitchingDistance", Some("1"));
    let before: Vec<(String, String)> = s.iter().to_vec();
    s.set_preset_group("Rendering.LowPolyMeshes", Some("0"));
    for flag in [
        "DFIntCSGLevelOfDetailSwitchingDistance",
        "DFIntCSGLevelOfDetailSwitchingDistanceL12",
        "DFIntCSGLevelOfDetailSwitchingDistanceL23",
        "DFIntCSGLevelOfDetailSwitchingDistanceL34",
    ] {
        assert_eq!(s.get(flag), Some("0"));
    }
    assert_eq!(s.get("Other"), Some("7"));
    s.undo();
    assert_eq!(s.iter().to_vec(), before);
}
