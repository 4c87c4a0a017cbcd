use image::ImageEncoder;
use redstrap::mods::{
    extra_paths, mod_dir_name, parse_hex_color, recolor_groups, recolor_steps, recolor_targets,
    RecolorCandidate, RecolorReport, RecolorStep,
};
use redstrap::roblox::LaunchMode;
use redstrap::shortcuts::{
    entry_enabled, icon_payload_ok, icon_thumbnail_url, launcher_entry_text, managed_shortcuts,
    plan_game_shortcut, universe_url, wrap_png_ico, ShortcutToggles,
};

#[test]
fn hex_colors_parse() {
    assert_eq!(parse_hex_color("#e11d2e"), Some((0xe1, 0x1d, 0x2e)));
    assert_eq!(parse_hex_color("e11d2e"), Some((0xe1, 0x1d, 0x2e)));
    assert_eq!(parse_hex_color("#abc"), Some((0xaa, 0xbb, 0xcc)));
    assert_eq!(parse_hex_color("#abcd"), None);
    assert_eq!(parse_hex_color("not a color"), None);
}

#[test]
fn hex_color_edges() {
    assert_eq!(parse_hex_color("  #FFF  "), Some((255, 255, 255)));
    // `from_str_radix` accepts a leading plus sign in each pair.
    assert_eq!(parse_hex_color("+f+f+f"), Some((15, 15, 15)));
    assert_eq!(parse_hex_color("##abc"), None);
    assert_eq!(parse_hex_color("é1"), None);
    assert_eq!(parse_hex_color("ab"), None);
}

#[test]
fn mod_folder_names() {
    assert_eq!(mod_dir_name("Cursor Pack", 1).as_deref(), Some("Cursor Pack"));
    assert_eq!(mod_dir_name("Cursor Pack", 2).as_deref(), Some("Cursor Pack (2)"));
    assert_eq!(mod_dir_name("x", 999).as_deref(), Some("x (999)"));
    assert_eq!(mod_dir_name("x", 1000), None);
}

#[test]
fn recolor_targets_cover_groups_and_safe_extras() {
    let groups = recolor_groups();
    assert_eq!(groups.len(), 3);
    let extras = vec![
        String::from(" /content\\textures\\Extra.png/ "),
        String::from("../escape.png"),
        String::from("   "),
    ];
    let (targets, rejected) = recolor_targets(&groups[1..2], &extras);
    assert_eq!(targets, vec!["content/textures/MouseLockedCursor.png", "content/textures/Extra.png"]);
    assert_eq!(
        rejected,
        vec!["../escape.png: rejected unsafe path", "   : rejected unsafe path"]
    );
    let (all, _) = recolor_targets(&groups, &[]);
    assert_eq!(all.len(), 10);
    assert_eq!(all[0], "content/textures/Cursors/KeyboardMouse/IBeamCursor.png");
    let report = RecolorReport::default();
    assert_eq!(report.recolored, 0);
}

#[test]
fn ico_wrapper_layout() {
    let png = vec![1u8, 2, 3, 4];
    let ico = wrap_png_ico(&png);
    assert_eq!(ico.len(), 22 + 4);
    assert_eq!(&ico[0..6], &[0, 0, 1, 0, 1, 0]);
    assert_eq!(u32::from_le_bytes([ico[14], ico[15], ico[16], ico[17]]), 4);
    assert_eq!(u32::from_le_bytes([ico[18], ico[19], ico[20], ico[21]]), 22);
    assert_eq!(&ico[22..], &[1, 2, 3, 4]);
}

#[test]
fn managed_shortcuts_follow_toggles() {
    let toggles = ShortcutToggles { player: true, studio: false, settings: true, desktop: true, start_menu: false };
    assert!(entry_enabled(&toggles, "player"));
    assert!(!entry_enabled(&toggles, "studio"));
    assert!(!entry_enabled(&toggles, "other"));
    let items = managed_shortcuts(&toggles, &[true, false], "/opt/RedStrap");
    assert_eq!(items.len(), 6);
    assert_eq!(items[0].location, 0);
    assert_eq!(items[0].file_name, "RedStrap Player.desktop");
    assert_eq!(
        items[0].content.as_deref(),
        Some("[Desktop Entry]\nType=Application\nName=RedStrap Player\nExec=\"/opt/RedStrap\" --player\nTerminal=false\nCategories=Game;\n")
    );
    assert!(items[1].content.is_none());
    assert!(items[2].content.is_none() && items[3].content.is_none());
    assert_eq!(items[4].file_name, "RedStrap Settings.desktop");
    assert!(items[4].content.is_some());
    assert_eq!(
        launcher_entry_text("n", "e", "a"),
        "[Desktop Entry]\nType=Application\nName=n\nExec=\"e\" a\nTerminal=false\nCategories=Game;\n"
    );
}

#[test]
fn game_shortcut_plans() {
    assert!(plan_game_shortcut("x", 0, "", "", "/e").is_err());
    assert!(plan_game_shortcut("   ", 5, "", "", "/e").is_err());
    let plan = plan_game_shortcut("  My: Game ", 1818, "job", "", "/e").expect("plan");
    assert_eq!(plan.name, "My: Game");
    assert_eq!(plan.deeplink, "roblox://experiences/start?placeId=1818&gameInstanceId=job");
    assert_eq!(plan.entry_file, "My_ Game.desktop");
    assert_eq!(plan.icon_file, "My_ Game.ico");
    assert_eq!(plan.record_file, "My_ Game.json");
    assert!(plan.entry.contains("Exec=\"/e\" \"roblox://experiences/start?placeId=1818&gameInstanceId=job\"\n"));
}

#[test]
fn icon_urls() {
    assert_eq!(universe_url("  ", 42), "https://apis.roblox.com/universes/v1/places/42/universe");
    assert_eq!(
        icon_thumbnail_url("example.org", 7),
        "https://thumbnails.example.org/v1/games/icons?universeIds=7&size=256x256&format=Png&isCircular=false"
    );
    assert!(!icon_payload_ok(0));
    assert!(icon_payload_ok(8 * 1024 * 1024));
    assert!(!icon_payload_ok(8 * 1024 * 1024 + 1));
}

fn png_of(width: u32, height: u32, raw: &[u8]) -> Vec<u8> {
    let mut out = Vec::new();
    image::codecs::png::PngEncoder::new(&mut out)
        .write_image(raw, width, height, image::ExtendedColorType::Rgba8)
        .expect("encode");
    out
}

#[test]
fn tinting_replaces_rgb_and_keeps_alpha() {
    let source = png_of(2, 1, &[1, 2, 3, 255, 9, 9, 9, 40]);
    let tinted = redstrap::mods::tint_png(&source, (0xe1, 0x1d, 0x2e)).expect("tint");
    assert_ne!(tinted, source);
    let back = image::load_from_memory_with_format(&tinted, image::ImageFormat::Png)
        .expect("decode")
        .to_rgba8();
    assert_eq!(back.into_raw(), vec![0xe1, 0x1d, 0x2e, 255, 0xe1, 0x1d, 0x2e, 40]);
}

#[test]
fn tinting_rejects_non_png_bytes() {
    let err = redstrap::mods::tint_png(b"not a png", (1, 2, 3)).unwrap_err();
    assert_eq!(err.title(), "Image Error");
}

#[test]
fn recolor_report_bookkeeping() {
    let mut report = redstrap::mods::RecolorReport::default();
    report.note_missing(String::from("a.png"));
    report.note_outcome("b.png", Ok(()));
    report.note_outcome("c.png", Err(String::from("boom")));
    assert_eq!(report.missing, vec![String::from("a.png")]);
    assert_eq!(report.recolored, 1);
    assert_eq!(report.failed, vec![String::from("c.png: boom")]);
}

#[test]
fn recolor_runs_only_on_usable_installs() {
    let steps = recolor_steps(&[
        RecolorCandidate { mode: LaunchMode::Player, wanted: true, installed: true, exe_present: true },
        RecolorCandidate { mode: LaunchMode::Studio, wanted: true, installed: false, exe_present: false },
    ]);
    assert_eq!(steps.len(), 2);
    assert!(matches!(steps[0], RecolorStep::Start(LaunchMode::Player)));
    match &steps[1] {
        RecolorStep::Skip(t) => assert_eq!(t, "Roblox Studio is not installed \u{2014} skipped"),
        other => panic!("unexpected {other:?}"),
    }
    let damaged = recolor_steps(&[RecolorCandidate {
        mode: LaunchMode::Player,
        wanted: true,
        installed: true,
        exe_present: false,
    }]);
    match &damaged[0] {
        RecolorStep::Skip(t) => assert_eq!(t, "Roblox Player install damaged \u{2014} skipped"),
        other => panic!("unexpected {other:?}"),
    }
    let none = recolor_steps(&[RecolorCandidate {
        mode: LaunchMode::Studio,
        wanted: false,
        installed: true,
        exe_present: true,
    }]);
    assert!(none.is_empty());
}

#[test]
fn extra_recolor_paths_are_trimmed_lines() {
    assert_eq!(
        extra_paths("  content/a.png \r\n\n   \nb/c.png"),
        vec![String::from("content/a.png"), String::from("b/c.png")]
    );
    assert!(extra_paths("").is_empty());
}

#[test]
fn mod_folders_skip_markers_and_sort_ignoring_case() {
    let names: Vec<String> = ["zeta", ".git", "Alpha", "beta", "ALPHA"].iter().map(|s| s.to_string()).collect();
    assert_eq!(
        redstrap::mods::mod_folders(&names),
        vec![String::from("Alpha"), String::from("ALPHA"), String::from("beta"), String::from("zeta")]
    );
}
