use redstrap::roblox::{find_latest_log, launch_argv, stale_logs, LogFile};
use redstrap::roblox::{
    classify_protocol_arg, is_rejoinable_reason, parse_access_code, parse_disconnect_reason,
    parse_gameshortcut, parse_joining_game, parse_rpc_message, parse_server_id,
    parse_udmux, parse_universe_report, start_deeplink, strip_log_prefix, LaunchMode,
};

#[test]
fn joining_game_parses() {
    let line = "[FLog::Output] ! Joining game '7d3f8a12-4b6c-4d8e-9f0a-1b2c3d4e5f60' place 1818 at 128.116.123.45";
    let info = parse_joining_game(line).expect("parse");
    assert_eq!(info.place_id, 1818);
    assert_eq!(info.machine_ip, "128.116.123.45");
    assert!(info.job_id.starts_with("7d3f8a12"));
    assert!(parse_joining_game("[FLog::Output] something else").is_none());
}

#[test]
fn server_id_parses() {
    assert_eq!(
        parse_server_id("[FLog::Network] serverId: 128.116.1.2|53640"),
        Some((String::from("128.116.1.2"), 53640))
    );
}

#[test]
fn disconnect_reason_parses() {
    assert_eq!(
        parse_disconnect_reason("[FLog::Network] Sending disconnect with reason: 277"),
        Some(277)
    );
    assert!(is_rejoinable_reason(1));
    assert!(is_rejoinable_reason(277));
    assert!(!is_rejoinable_reason(266));
}

#[test]
fn universe_report_parses() {
    let line = "[FLog::GameJoinLoadTime] Report game_join_loadtime: universeid:1818, userid:1234, placeid:1818";
    assert_eq!(parse_universe_report(line), Some((1818, 1234)));
    assert!(parse_universe_report("[FLog::GameJoinLoadTime] Report game_join_loadtime: nope").is_none());
}

#[test]
fn udmux_parses() {
    let line = "[FLog::Network] UDMUX Address = 1.2.3.4, Port = 53640 | RCC Server Address = 5.6.7.8, Port = 53640";
    assert_eq!(
        parse_udmux(line),
        Some((String::from("1.2.3.4"), String::from("5.6.7.8")))
    );
}

#[test]
fn rpc_markers_both_accepted() {
    assert_eq!(
        parse_rpc_message("[FLog::Output] [BloxstrapRPC] {\"a\":1}"),
        Some("{\"a\":1}")
    );
    assert_eq!(
        parse_rpc_message("[FLog::Output] [RedStrapRPC] {\"a\":1}"),
        Some("{\"a\":1}")
    );
    assert!(parse_rpc_message("[FLog::Output] hello").is_none());
}

#[test]
fn access_code_parses() {
    let line = "GameJoinUtil::joinGamePostPrivateServer ... \"accessCode\":\"abc-123\" ...";
    assert_eq!(parse_access_code(line), Some(String::from("abc-123")));
}

#[test]
fn deeplinks_roundtrip() {
    assert_eq!(
        start_deeplink(1818, "job-1", ""),
        "roblox://experiences/start?placeId=1818&gameInstanceId=job-1"
    );
    assert_eq!(
        start_deeplink(1818, "", "code-9"),
        "roblox://experiences/start?placeId=1818&accessCode=code-9"
    );
    assert_eq!(
        parse_gameshortcut("1818;job-1"),
        Some(String::from(
            "roblox://experiences/start?placeId=1818&gameInstanceId=job-1"
        ))
    );
    assert!(parse_gameshortcut("abc").is_none());
    assert!(parse_gameshortcut("0").is_none());
}

#[test]
fn protocol_args_classify() {
    assert_eq!(
        classify_protocol_arg("roblox-player:1+launchmode:play"),
        Some(LaunchMode::Player)
    );
    assert_eq!(
        classify_protocol_arg("ROBLOX-STUDIO:1+task:EditPlace"),
        Some(LaunchMode::Studio)
    );
    assert_eq!(
        classify_protocol_arg("roblox-studio-auth:1+blah"),
        Some(LaunchMode::StudioAuth)
    );
    assert_eq!(classify_protocol_arg("--settings"), None);
}

#[test]
fn launch_modes_map() {
    assert_eq!(LaunchMode::Player.exe_name(), "RobloxPlayerBeta.exe");
    assert_eq!(LaunchMode::Studio.binary_type(), "WindowsStudio64");
    assert!(LaunchMode::StudioAuth.is_studio());
    assert!(!LaunchMode::Player.is_studio());
}

#[test]
fn launch_mode_text_roundtrip() {
    assert_eq!(LaunchMode::parse("  Studio-Auth "), Some(LaunchMode::StudioAuth));
    assert_eq!(LaunchMode::parse("PLAYER"), Some(LaunchMode::Player));
    assert_eq!(LaunchMode::parse("studioauth"), Some(LaunchMode::StudioAuth));
    assert_eq!(LaunchMode::parse("web"), None);
    assert_eq!(LaunchMode::parse(LaunchMode::Studio.as_str()), Some(LaunchMode::Studio));
    assert_eq!(LaunchMode::StudioAuth.label(), "Roblox Studio");
}

#[test]
fn log_prefix_is_stripped() {
    assert_eq!(
        strip_log_prefix("2024-01-01T00:00:00.000Z,0.0 [FLog::Output] hi"),
        "[FLog::Output] hi"
    );
    assert_eq!(strip_log_prefix("nospace"), "nospace");
}

#[test]
fn log_parsers_reject_malformed_lines() {
    assert!(parse_server_id("[FLog::Network] serverId: 1.2.3.4|99999").is_none());
    assert_eq!(
        parse_disconnect_reason("[FLog::Network] Sending disconnect with reason: x12y"),
        Some(12)
    );
    assert!(parse_universe_report(
        "[FLog::GameJoinLoadTime] Report game_join_loadtime: \"universeid\":\"7\", userid:8"
    )
    .map(|p| p == (7, 8))
    .unwrap_or(false));
    assert!(parse_universe_report("[FLog::GameJoinLoadTime] Report game_join_loadtime: universeid:1, bad").is_none());
    assert!(parse_access_code("\"accessCode\":\"\"").is_none());
    assert!(parse_rpc_message("[FLog::Output] [RedStrapRPC]   ").is_none());
    assert_eq!(
        parse_gameshortcut(" 5 ; ; code "),
        Some(String::from("roblox://experiences/start?placeId=5&accessCode=code"))
    );
    let quoted = "[FLog::Output] ! Joining game 'j' place 2 at '9.9.9.9',";
    assert_eq!(parse_joining_game(quoted).map(|i| i.machine_ip), Some(String::from("9.9.9.9")));
}

#[test]
fn launch_command_lines() {
    assert_eq!(launch_argv("/v/R.exe", "  roblox-player:1 ", ""), vec!["/v/R.exe", "roblox-player:1"]);
    assert_eq!(launch_argv("/v/R.exe", "", " wine  --x "), vec!["wine", "--x", "/v/R.exe"]);
    assert_eq!(launch_argv("/v/R.exe", " ", "   "), vec!["/v/R.exe"]);
}

#[test]
fn newest_and_stale_logs() {
    let f = |name: &str, t: Option<u64>| LogFile { name: name.to_string(), modified: t };
    let entries = vec![
        f("a.log", Some(5)),
        f("b.txt", Some(99)),
        f("c.LOG", Some(9)),
        f(".log", Some(100)),
        f("d.log", Some(9)),
        f("e.log", Some(1)),
    ];
    assert_eq!(find_latest_log(&entries), Some(2));
    assert_eq!(stale_logs(&entries, 2), vec![0, 5]);
    assert_eq!(stale_logs(&entries, 0), vec![0, 2, 4, 5]);
    assert!(stale_logs(&entries, 10).is_empty());
    let broken = vec![f("a.log", Some(5)), f("b.log", None)];
    assert_eq!(find_latest_log(&broken), None);
    assert_eq!(stale_logs(&broken, 0), vec![0]);
    assert_eq!(find_latest_log(&[]), None);
}
