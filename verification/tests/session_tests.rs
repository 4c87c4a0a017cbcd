use redstrap::roblox::LaunchMode;
use redstrap::rpc::{
    activity_fields, decode_frame_header, encode_frame, normalize_time, truncate, Presence,
    OP_FRAME,
};
use redstrap::session::{
    cleans_on_close, records_playtime, ImageSpec, PresenceStep, RpcCommand, Session, WatchAction,
};
use redstrap::settings::{CleanerMode, Settings};
use redstrap::state::State;

const JOIN: &str = "2024-01-01T00:00:00.000Z,0.1,abc,6 [FLog::Output] ! Joining game '7d3f8a12' place 1818 at 128.116.123.45";
const SERVER: &str = "2024 [FLog::Network] serverId: 128.116.1.2|53640";
const REASON: &str = "2024 [FLog::Network] Sending disconnect with reason: 277";

fn settings() -> Settings {
    let mut s = Settings::default();
    s.auto_rejoin = true;
    s.discord_client_id = String::from("123");
    s
}

#[test]
fn join_server_and_disconnect_are_tracked() {
    let st = settings();
    let mut s = Session::new(42, LaunchMode::Player);
    let actions = s.handle_line(&st, JOIN, 0);
    assert_eq!(actions, vec![WatchAction::WriteServerDetails]);
    assert_eq!(s.place_id, 1818);
    assert_eq!(s.job_id, "7d3f8a12");
    assert_eq!(s.machine_address, "128.116.123.45");
    assert_eq!(s.join_seq, 1);
    assert!(s.presence_dirty);

    s.handle_line(&st, SERVER, 10);
    assert!(s.connected);
    assert_eq!(s.server_ip, "128.116.1.2");
    assert_eq!(s.server_port, 53640);

    let actions = s.handle_line(&st, REASON, 1000);
    assert_eq!(actions, vec![WatchAction::WriteServerDetails]);
    assert!(!s.connected);
    assert_eq!(s.rejoin_at, Some(4000));

    // Not yet due.
    assert_eq!(s.rejoin_due(&st, 3999, true), None);
    let link = s.rejoin_due(&st, 4000, true);
    assert_eq!(
        link.as_deref(),
        Some("roblox://experiences/start?placeId=1818&gameInstanceId=7d3f8a12")
    );
    assert_eq!(s.rejoin_attempts, 1);
    assert_eq!(s.rejoin_at, None);
}

#[test]
fn rejoins_stop_at_the_limit() {
    let st = settings();
    let mut s = Session::new(1, LaunchMode::Player);
    s.handle_line(&st, JOIN, 0);
    let mut launched = 0;
    for round in 0..10u64 {
        s.handle_line(&st, REASON, round * 10_000);
        if s.rejoin_due(&st, round * 10_000 + 5_000, true).is_some() {
            launched += 1;
        }
    }
    assert_eq!(launched, 5);
    // A fresh join resets the count.
    s.handle_line(&st, JOIN, 200_000);
    assert_eq!(s.rejoin_attempts, 0);
}

#[test]
fn rejoin_is_abandoned_when_a_new_join_started() {
    let st = settings();
    let mut s = Session::new(1, LaunchMode::Player);
    s.handle_line(&st, JOIN, 0);
    s.handle_line(&st, REASON, 0);
    s.handle_line(&st, "x [FLog::GameJoinUtil] GameJoinUtil::initiateTeleportToPlace", 1);
    s.handle_line(&st, JOIN, 2);
    assert_eq!(s.rejoin_at, None);
    s.handle_line(&st, REASON, 10);
    assert_eq!(s.rejoin_due(&st, 100_000, false), None);
}

#[test]
fn leaving_can_close_the_client() {
    let mut st = settings();
    st.close_on_leave_game = true;
    let mut s = Session::new(99, LaunchMode::Player);
    let actions = s.handle_line(&st, "x [FLog::SingleSurfaceApp] leaveUGCGameInternal", 0);
    assert_eq!(actions, vec![WatchAction::KillClient(99), WatchAction::WriteServerDetails]);
}

#[test]
fn universe_report_requests_lookups() {
    let mut st = settings();
    st.rpc_show_account = true;
    let mut s = Session::new(1, LaunchMode::Player);
    let line = "x [FLog::GameJoinLoadTime] Report game_join_loadtime: placeid:1818, universeid:1234, userid:55";
    let actions = s.handle_line(&st, line, 0);
    assert_eq!(
        actions,
        vec![
            WatchAction::ResolveGameInfo(1234),
            WatchAction::ResolveUserName(55),
            WatchAction::WriteServerDetails
        ]
    );
    s.game_info_fetched(1234, String::from("Obby"), String::from("https://icon"));
    s.user_name_fetched(Some(String::from("builder")));
    assert_eq!(s.game_name, "Obby");
    assert_eq!(s.user_name, "builder");
    // The second report uses the cache and does not ask for the user again.
    s.game_name = String::new();
    let actions = s.handle_line(&st, line, 1);
    assert_eq!(actions, vec![WatchAction::WriteServerDetails]);
    assert_eq!(s.game_name, "Obby");
}

#[test]
fn studio_sessions_follow_places() {
    let st = settings();
    let mut s = Session::new(1, LaunchMode::Studio);
    let actions = s.handle_line(&st, "t [FLog::PlaceManager] Start to open place 123", 0);
    assert!(actions.is_empty());
    assert!(s.studio_open);
    let p = s.build_presence(&st, 1000);
    assert_eq!(p.details.as_deref(), Some("Roblox Studio"));
    assert_eq!(p.state.as_deref(), Some("Editing a place"));
    assert_eq!(p.start, Some(1000));
    assert!(s.server_details().is_none());
}

#[test]
fn game_rpc_and_presence() {
    let mut st = settings();
    st.rpc_hide_buttons = false;
    let mut s = Session::new(1, LaunchMode::Player);
    s.handle_line(&st, JOIN, 0);
    let actions = s.handle_line(&st, "x [FLog::Output] [RedStrapRPC] {\"command\":\"SetRichPresence\"}", 0);
    assert_eq!(actions, vec![WatchAction::ApplyGameRpc(String::from("{\"command\":\"SetRichPresence\"}"))]);
    s.apply_game_rpc(RpcCommand {
        command: String::from("SetRichPresence"),
        details: Some(String::from("Level 3")),
        state: Some(String::from("   ")),
        time_start: Some(5),
        time_end: None,
        large_image: Some(ImageSpec { asset_id: Some(String::from("rbxassetid://1")), hover_text: Some(String::from("hi")), clear: false, reset: false }),
        small_image: None,
        launch_data: None,
    });
    let p = s.build_presence(&st, 1000);
    assert_eq!(p.details.as_deref(), Some("Level 3"));
    assert_eq!(p.state.as_deref(), Some("In the menu"));
    assert_eq!(p.start, Some(5));
    assert_eq!(p.large_image.as_deref(), Some("rbxassetid://1"));
    assert_eq!(p.buttons, vec![(String::from("View Game"), String::from("https://www.roblox.com/games/1818/x"))]);
    s.apply_game_rpc(RpcCommand {
        command: String::from("SetLaunchData"),
        details: None,
        state: None,
        time_start: None,
        time_end: None,
        large_image: None,
        small_image: None,
        launch_data: Some(String::from("abc")),
    });
    assert_eq!(
        s.deeplink().as_deref(),
        Some("roblox://experiences/start?placeId=1818&gameInstanceId=7d3f8a12&launchData=abc")
    );
    let details = s.server_details().expect("player");
    assert_eq!(details.mode, "player");
    assert_eq!(details.place_id, 1818);
}

#[test]
fn presence_publishing_is_throttled() {
    let st = settings();
    let mut s = Session::new(1, LaunchMode::Player);
    assert_eq!(s.presence_step(&st, 0), PresenceStep::Idle);
    s.presence_dirty = true;
    assert_eq!(s.presence_step(&st, 0), PresenceStep::Connect);
    s.presence_connected(false, 0);
    assert_eq!(s.presence_step(&st, 29_999), PresenceStep::Idle);
    assert_eq!(s.presence_step(&st, 30_000), PresenceStep::Connect);
    s.presence_connected(true, 30_000);
    assert_eq!(s.presence_step(&st, 30_000), PresenceStep::Publish);
    s.presence_published(true, 30_000);
    s.presence_dirty = true;
    assert_eq!(s.presence_step(&st, 31_999), PresenceStep::Idle);
    assert_eq!(s.presence_step(&st, 32_000), PresenceStep::Publish);
}

#[test]
fn playtime_and_cleaner_decisions() {
    let mut st = Settings::default();
    assert!(records_playtime(&st, LaunchMode::Player, 10));
    assert!(!records_playtime(&st, LaunchMode::Studio, 10));
    assert!(!records_playtime(&st, LaunchMode::Player, 0));
    assert!(!cleans_on_close(&st));
    st.cleaner = CleanerMode::OnClose;
    assert!(cleans_on_close(&st));
    let mut state = State::default();
    state.playtime_total_secs = u64::MAX - 1;
    state.add_playtime(5);
    assert_eq!(state.playtime_total_secs, u64::MAX);
}

#[test]
fn rpc_framing_and_limits() {
    let frame = encode_frame(OP_FRAME, b"{}");
    assert_eq!(frame, vec![1, 0, 0, 0, 2, 0, 0, 0, b'{', b'}']);
    let header: [u8; 8] = [1, 0, 0, 0, 2, 0, 0, 0];
    assert_eq!(decode_frame_header(&header).ok(), Some((1, 2)));
    let big: [u8; 8] = [1, 0, 0, 0, 1, 0, 16, 0];
    assert!(decode_frame_header(&big).is_err());
    assert_eq!(normalize_time(1_700_000_000_000), 1_700_000_000);
    assert_eq!(normalize_time(1_700_000_000), 1_700_000_000);
    assert_eq!(truncate("héllo", 2), "hé");
    let mut p = Presence::default();
    p.details = Some("x".repeat(200));
    p.start = Some(1_700_000_000_123);
    p.buttons = vec![
        (String::from("a".repeat(40)), String::from("https://a")),
        (String::from("b"), String::from("https://b")),
        (String::from("c"), String::from("https://c")),
    ];
    let f = activity_fields(&p);
    assert_eq!(f.details.as_ref().map(|d| d.chars().count()), Some(128));
    assert_eq!(f.start, Some(1_700_000_000));
    assert_eq!(f.buttons.len(), 2);
    assert_eq!(f.buttons[0].0.len(), 32);
}
