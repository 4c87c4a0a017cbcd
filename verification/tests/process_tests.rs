use redstrap::registry::{protocol_entries, protocols, uninstall_entry, uninstall_script, RegistryData};
use redstrap::instance::{lock_file_path, mutex_name, sanitize_slot};
use redstrap::process::{
    find_pids_by_name, is_running_by_name, kill_signal, kill_targets, priority_change,
    process_exists, KillSignal, ProcessEntry,
};
use redstrap::registry::{app_key, protocol_key, uninstall_key};
use redstrap::settings::ProcessPriority;

fn table() -> Vec<ProcessEntry> {
    vec![
        ProcessEntry { pid: 10, name: String::from("RobloxPlayerBeta.exe"), cmdline: String::new() },
        ProcessEntry { pid: 11, name: String::from("wine"), cmdline: String::from("wine C:/x/RobloxPlayerBeta.exe") },
        ProcessEntry { pid: 12, name: String::from("bash"), cmdline: String::from("bash") },
    ]
}

#[test]
fn pids_match_name_or_command_line_ignoring_case() {
    let t = table();
    assert_eq!(find_pids_by_name("robloxplayer", &t), vec![10, 11]);
    assert_eq!(find_pids_by_name("BASH", &t), vec![12]);
    assert!(find_pids_by_name("", &t).is_empty());
    assert!(is_running_by_name("wine", &t));
    assert!(!is_running_by_name("studio", &t));
    assert!(process_exists(12, &t));
    assert!(!process_exists(13, &t));
    assert_eq!(kill_targets("roblox", &t, 11), vec![10]);
}

#[test]
fn signals_and_priorities() {
    assert_eq!(kill_signal(5, true).unwrap(), KillSignal::Kill);
    assert_eq!(kill_signal(5, false).unwrap(), KillSignal::Terminate);
    let e = kill_signal(0, true).unwrap_err();
    assert_eq!(e.title(), "Process Error");
    let c = priority_change(7, ProcessPriority::High).unwrap();
    assert_eq!(c.nice, -10);
    assert_eq!(c.windows_class, 0x80);
    assert_eq!(priority_change(7, ProcessPriority::Low).unwrap().nice, 10);
    assert!(priority_change(0, ProcessPriority::Normal).is_err());
}

#[test]
fn registry_keys() {
    assert_eq!(uninstall_key(), "Software\\Microsoft\\Windows\\CurrentVersion\\Uninstall\\RedStrap");
    assert_eq!(app_key(), "Software\\RedStrap");
    assert_eq!(protocol_key("roblox-player"), "Software\\Classes\\roblox-player");
}

#[test]
fn instance_slot_names() {
    assert_eq!(sanitize_slot("settings window!"), "settingswindow");
    assert_eq!(sanitize_slot("***"), "app");
    assert_eq!(sanitize_slot(&"a".repeat(80)).len(), 64);
    assert_eq!(lock_file_path("/tmp", "settings"), "/tmp/redstrap.settings.lock");
    assert_eq!(mutex_name("settings-ui"), "Local\\RedStrap-settings-ui");
}

#[test]
fn install_registry_values() {
    let entry = uninstall_entry("C:\\R\\RedStrap.exe", "C:\\R", "1.2.3");
    assert_eq!(entry.len(), 9);
    assert_eq!(entry[4].value_name.as_deref(), Some("UninstallString"));
    match &entry[4].data {
        RegistryData::Text(t) => assert_eq!(t, "\"C:\\R\\RedStrap.exe\" --uninstall"),
        _ => panic!(),
    }
    assert!(matches!(entry[8].data, RegistryData::Dword(1)));
    assert_eq!(protocols().len(), 4);
    let p = protocol_entries("roblox-player", "Roblox Player", "C:\\R\\RedStrap.exe");
    assert_eq!(p[3].key, "Software\\Classes\\roblox-player\\shell\\open\\command");
    match &p[3].data {
        RegistryData::Text(t) => assert_eq!(t, "\"C:\\R\\RedStrap.exe\" \"%1\""),
        _ => panic!(),
    }
    assert!(uninstall_script("C:\\R").contains("rmdir /s /q \"C:\\R\"\r\n"));
}
