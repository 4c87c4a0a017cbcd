use redstrap::logging::{LogLine, LogRing};
use redstrap::state::{DistributionState, ModConfig, State};

#[test]
fn mod_entry_is_created_on_demand() {
    let mut s = State::default();
    s.ensure_mod("my-mod");
    if let Some(entry) = s.mod_entry_mut("my-mod") {
        entry.enabled = false;
    }
    assert_eq!(s.mods.len(), 1);
    assert!(!s.mods[0].enabled);
    // Second lookup returns the same entry.
    s.ensure_mod("my-mod");
    assert_eq!(s.mods.len(), 1);
    assert_eq!(s.mod_entry("my-mod").map(|m| m.enabled), Some(false));
}

#[test]
fn distribution_defaults_to_uninstalled() {
    assert!(!DistributionState::default().is_installed());
}

#[test]
fn distribution_with_guid_is_installed() {
    let mut d = DistributionState::default();
    d.version_guid = String::from("version-abc");
    assert!(d.is_installed());
}

#[test]
fn new_mods_get_default_settings() {
    let mut s = State::default();
    s.ensure_mod("a");
    s.ensure_mod("b");
    assert_eq!(s.mods.len(), 2);
    assert_eq!(s.mods[1].file, "b");
    assert!(s.mods[1].enabled && s.mods[1].player && !s.mods[1].studio);
    assert!(s.mod_entry("c").is_none());
    assert!(s.mod_entry_mut("c").is_none());
    assert_eq!(s.mod_index("b"), Some(1));
}

#[test]
fn load_repairs_schema_and_drops_unnamed_mods() {
    let mut raw = State::default();
    raw.schema_version = 0;
    raw.mods.push(ModConfig { file: String::from("keep"), enabled: false, player: true, studio: true });
    raw.mods.push(ModConfig { file: String::from("   "), enabled: true, player: true, studio: false });
    raw.mods.push(ModConfig { file: String::new(), enabled: true, player: true, studio: false });
    raw.mods.push(ModConfig { file: String::from("also"), enabled: true, player: false, studio: false });
    let (state, corrupted) = State::load(raw, true);
    assert!(corrupted);
    assert_eq!(state.schema_version, 1);
    let names: Vec<&str> = state.mods.iter().map(|m| m.file.as_str()).collect();
    assert_eq!(names, vec!["keep", "also"]);

    let mut raw = State::default();
    raw.schema_version = 7;
    let (state, corrupted) = State::load(raw, false);
    assert!(!corrupted);
    assert_eq!(state.schema_version, 7);
}

fn line(n: usize) -> LogLine {
    LogLine { level: String::from("INFO"), target: String::from("t"), message: format!("m{n}") }
}

#[test]
fn log_ring_keeps_the_newest_lines() {
    let mut ring = LogRing::new(2);
    for n in 0..40 {
        ring.push(line(n));
    }
    // Capacity is raised to the minimum of sixteen.
    let snap = ring.snapshot();
    assert_eq!(snap.len(), 16);
    assert_eq!(snap[0].message, "m24");
    assert_eq!(snap[15].message, "m39");
    ring.clear();
    assert!(ring.snapshot().is_empty());
}

#[test]
fn log_ring_below_capacity_keeps_everything() {
    let mut ring = LogRing::new(100);
    for n in 0..5 {
        ring.push(line(n));
    }
    let msgs: Vec<String> = ring.snapshot().into_iter().map(|l| l.message).collect();
    assert_eq!(msgs, vec!["m0", "m1", "m2", "m3", "m4"]);
}
