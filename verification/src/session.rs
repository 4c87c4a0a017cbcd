//! The session watcher's state machine.
//!
//! One watcher follows one Roblox client: it reads the client log line by
//! line, tracks joins, disconnects and teleports, schedules automatic
//! rejoins, keeps the Discord presence up to date, and records what the
//! desktop app shows about the current server. This module holds the
//! decisions; reading the log, talking to Discord and the web APIs, and
//! writing files happen at the edge of the program, which hands the
//! results back through the methods below.
//!
//! Times are milliseconds on a monotonic clock chosen by the caller.

use std::collections::HashMap;

use vstd::prelude::*;

use crate::consts::{AUTO_REJOIN_DELAY_SECS, MAX_AUTO_REJOINS};
use crate::roblox::{
    access_code_spec, deeplink_spec, disconnect_reason_spec, joining_game_spec, log_message,
    parse_access_code, parse_disconnect_reason, parse_joining_game, parse_rpc_message,
    parse_server_id, parse_udmux, parse_universe_report, rpc_message_spec, server_id_spec,
    start_deeplink, strip_log_prefix, udmux_spec, universe_report_spec, LaunchMode,
    MARK_DISCONNECTED, MARK_DISCONNECT_REASON, MARK_JOINED_SERVER, MARK_JOINING_GAME,
    MARK_LEAVING_GAME, MARK_PRIVATE_JOIN, MARK_RESERVED_JOIN, MARK_STUDIO_CLOSE,
    MARK_STUDIO_OPEN, MARK_TELEPORT, MARK_UDMUX, MARK_UNIVERSE_REPORT,
};
use crate::rpc::Presence;
use crate::settings::{CleanerMode, Settings};
use crate::state::State;
use crate::text::{dec, push_dec, chars_of, chars_eq_str, push_str, starts_with, starts_with_str, str_to_string, trim, trim_str};

verus! {

broadcast use vstd::std_specs::hash::group_hash_axioms;

/// Latest time a caller may pass: far below the point where adding a delay
/// could overflow.
pub const MAX_CLOCK_MS: u64 = 0x7FFF_FFFF_FFFF_FFFF;

/// Delay before an automatic rejoin, in milliseconds.
pub const REJOIN_DELAY_MS: u64 = 3000;
/// Shortest gap between two presence updates, in milliseconds.
pub const PRESENCE_THROTTLE_MS: u64 = 2000;
/// Wait before retrying after Discord could not be reached.
pub const RPC_CONNECT_RETRY_MS: u64 = 30000;
/// Wait before reconnecting after a presence update failed.
pub const RPC_WRITE_RETRY_MS: u64 = 15000;

pub open spec fn opt_str(o: Option<String>) -> Option<Seq<char>> {
    match o {
        Some(s) => Some(s@),
        None => None,
    }
}

// ---------------------------------------------------------------------------
// In-game presence requests
// ---------------------------------------------------------------------------

/// Presence fields set by the game itself through `[RedStrapRPC]` messages.
#[derive(Debug, Clone)]
pub struct GameRpcState {
    pub details: Option<String>,
    pub state: Option<String>,
    pub time_start: Option<i64>,
    pub time_end: Option<i64>,
    pub large_image: Option<String>,
    pub large_text: Option<String>,
    pub small_image: Option<String>,
    pub small_text: Option<String>,
}

pub struct GameRpcView {
    pub details: Option<Seq<char>>,
    pub state: Option<Seq<char>>,
    pub time_start: Option<i64>,
    pub time_end: Option<i64>,
    pub large_image: Option<Seq<char>>,
    pub large_text: Option<Seq<char>>,
    pub small_image: Option<Seq<char>>,
    pub small_text: Option<Seq<char>>,
}

impl View for GameRpcState {
    type V = GameRpcView;

    open spec fn view(&self) -> GameRpcView {
        GameRpcView {
            details: opt_str(self.details),
            state: opt_str(self.state),
            time_start: self.time_start,
            time_end: self.time_end,
            large_image: opt_str(self.large_image),
            large_text: opt_str(self.large_text),
            small_image: opt_str(self.small_image),
            small_text: opt_str(self.small_text),
        }
    }
}

impl GameRpcState {
    pub fn new() -> (r: Self)
        ensures
            r@ == (GameRpcView {
                details: None,
                state: None,
                time_start: None,
                time_end: None,
                large_image: None,
                large_text: None,
                small_image: None,
                small_text: None,
            }),
    {
        GameRpcState {
            details: None,
            state: None,
            time_start: None,
            time_end: None,
            large_image: None,
            large_text: None,
            small_image: None,
            small_text: None,
        }
    }
}

/// An image in a game presence request.
#[derive(Debug, Clone)]
pub struct ImageSpec {
    pub asset_id: Option<String>,
    pub hover_text: Option<String>,
    pub clear: bool,
    pub reset: bool,
}

/// A presence request sent by a game.
#[derive(Debug, Clone)]
pub struct RpcCommand {
    pub command: String,
    pub details: Option<String>,
    pub state: Option<String>,
    pub time_start: Option<i64>,
    pub time_end: Option<i64>,
    pub large_image: Option<ImageSpec>,
    pub small_image: Option<ImageSpec>,
    pub launch_data: Option<String>,
}

/// An image and its hover text after a request: cleared together on
/// `clear` or `reset`, else a non-blank asset id and any hover text
/// replace theirs.
pub open spec fn image_after(
    image: Option<Seq<char>>,
    text: Option<Seq<char>>,
    spec: Option<ImageSpec>,
) -> (Option<Seq<char>>, Option<Seq<char>>) {
    match spec {
        None => (image, text),
        Some(s) => if s.clear || s.reset {
            (None, None)
        } else {
            (
                match s.asset_id {
                    Some(id) => if trim(id@).len() > 0 {
                        Some(id@)
                    } else {
                        image
                    },
                    None => image,
                },
                match s.hover_text {
                    Some(h) => Some(h@),
                    None => text,
                },
            )
        },
    }
}

pub fn apply_image(image: &mut Option<String>, text: &mut Option<String>, spec: Option<ImageSpec>)
    ensures
        (opt_str(*final(image)), opt_str(*final(text))) == image_after(
            opt_str(*old(image)),
            opt_str(*old(text)),
            spec,
        ),
{
    let spec = match spec {
        Some(s) => s,
        None => return,
    };
    if spec.clear || spec.reset {
        *image = None;
        *text = None;
        return;
    }
    match spec.asset_id {
        Some(id) => {
            if trim_str(id.as_str()).len() > 0 {
                *image = Some(id);
            }
        },
        None => {},
    }
    match spec.hover_text {
        Some(hover) => {
            *text = Some(hover);
        },
        None => {},
    }
}

// ---------------------------------------------------------------------------
// Session state
// ---------------------------------------------------------------------------

/// What the watcher knows about the client it follows.
#[derive(Debug, Clone)]
pub struct Session {
    pub pid: u32,
    pub mode: LaunchMode,
    pub place_id: u64,
    pub job_id: String,
    pub access_code: String,
    pub server_ip: String,
    pub server_port: u16,
    pub machine_address: String,
    pub universe_id: u64,
    pub user_id: u64,
    pub user_name: String,
    pub user_name_resolved: bool,
    pub game_name: String,
    pub game_icon_url: String,
    pub connected: bool,
    pub join_seq: u64,
    pub last_disconnect_seq: u64,
    pub rejoin_attempts: u32,
    pub rejoin_at: Option<u64>,
    pub launch_data: String,
    pub studio_open: bool,
    pub presence_dirty: bool,
    pub last_presence_push: Option<u64>,
    pub next_rpc_retry: Option<u64>,
    pub rpc_connected: bool,
    pub game_rpc: GameRpcState,
    pub game_cache: HashMap<u64, (String, String)>,
}

pub struct SessionView {
    pub pid: u32,
    pub mode: LaunchMode,
    pub place_id: u64,
    pub job_id: Seq<char>,
    pub access_code: Seq<char>,
    pub server_ip: Seq<char>,
    pub server_port: u16,
    pub machine_address: Seq<char>,
    pub universe_id: u64,
    pub user_id: u64,
    pub user_name: Seq<char>,
    pub user_name_resolved: bool,
    pub game_name: Seq<char>,
    pub game_icon_url: Seq<char>,
    pub connected: bool,
    pub join_seq: u64,
    pub last_disconnect_seq: u64,
    pub rejoin_attempts: u32,
    pub rejoin_at: Option<u64>,
    pub launch_data: Seq<char>,
    pub studio_open: bool,
    pub presence_dirty: bool,
    pub last_presence_push: Option<u64>,
    pub next_rpc_retry: Option<u64>,
    pub rpc_connected: bool,
    pub game_rpc: GameRpcView,
    pub game_cache: Map<u64, (Seq<char>, Seq<char>)>,
}

pub open spec fn cache_view(m: Map<u64, (String, String)>) -> Map<u64, (Seq<char>, Seq<char>)> {
    m.map_values(|p: (String, String)| (p.0@, p.1@))
}

impl View for Session {
    type V = SessionView;

    open spec fn view(&self) -> SessionView {
        SessionView {
            pid: self.pid,
            mode: self.mode,
            place_id: self.place_id,
            job_id: self.job_id@,
            access_code: self.access_code@,
            server_ip: self.server_ip@,
            server_port: self.server_port,
            machine_address: self.machine_address@,
            universe_id: self.universe_id,
            user_id: self.user_id,
            user_name: self.user_name@,
            user_name_resolved: self.user_name_resolved,
            game_name: self.game_name@,
            game_icon_url: self.game_icon_url@,
            connected: self.connected,
            join_seq: self.join_seq,
            last_disconnect_seq: self.last_disconnect_seq,
            rejoin_attempts: self.rejoin_attempts,
            rejoin_at: self.rejoin_at,
            launch_data: self.launch_data@,
            studio_open: self.studio_open,
            presence_dirty: self.presence_dirty,
            last_presence_push: self.last_presence_push,
            next_rpc_retry: self.next_rpc_retry,
            rpc_connected: self.rpc_connected,
            game_rpc: self.game_rpc@,
            game_cache: cache_view(self.game_cache@),
        }
    }
}

/// Something the watcher asks the outside world to do, in order.
#[derive(Debug, Clone, PartialEq, Eq)]
pub enum WatchAction {
    /// Write the server snapshot the desktop app reads.
    WriteServerDetails,
    /// Terminate the client process.
    KillClient(u32),
    /// Look up the name and icon of a universe, then report them through
    /// [`Session::game_info_fetched`].
    ResolveGameInfo(u64),
    /// Look up a user's name, then report it through
    /// [`Session::user_name_fetched`].
    ResolveUserName(u64),
    /// Parse a game presence request and hand it to
    /// [`Session::apply_game_rpc`].
    ApplyGameRpc(String),
}

pub enum ActionView {
    WriteServerDetails,
    KillClient(u32),
    ResolveGameInfo(u64),
    ResolveUserName(u64),
    ApplyGameRpc(Seq<char>),
}

pub open spec fn action_view(a: WatchAction) -> ActionView {
    match a {
        WatchAction::WriteServerDetails => ActionView::WriteServerDetails,
        WatchAction::KillClient(p) => ActionView::KillClient(p),
        WatchAction::ResolveGameInfo(u) => ActionView::ResolveGameInfo(u),
        WatchAction::ResolveUserName(u) => ActionView::ResolveUserName(u),
        WatchAction::ApplyGameRpc(s) => ActionView::ApplyGameRpc(s@),
    }
}

pub open spec fn actions_view(v: Seq<WatchAction>) -> Seq<ActionView> {
    v.map_values(|a: WatchAction| action_view(a))
}

impl Session {
    /// A fresh session for client `pid`.
    pub fn new(pid: u32, mode: LaunchMode) -> (r: Self)
        ensures
            r.pid == pid,
            r.mode == mode,
            r.place_id == 0,
            r.job_id@.len() == 0,
            r.access_code@.len() == 0,
            r.server_ip@.len() == 0,
            r.server_port == 0,
            r.machine_address@.len() == 0,
            r.universe_id == 0,
            r.user_id == 0,
            r.user_name@.len() == 0,
            !r.user_name_resolved,
            r.game_name@.len() == 0,
            r.game_icon_url@.len() == 0,
            !r.connected,
            r.join_seq == 0,
            r.last_disconnect_seq == 0,
            r.rejoin_attempts == 0,
            r.rejoin_at is None,
            r.launch_data@.len() == 0,
            !r.studio_open,
            !r.presence_dirty,
            r.last_presence_push is None,
            r.next_rpc_retry is None,
            !r.rpc_connected,
            r.game_rpc@.details is None && r.game_rpc@.state is None,
            r.game_rpc@.time_start is None && r.game_rpc@.time_end is None,
            r.game_rpc@.large_image is None && r.game_rpc@.large_text is None,
            r.game_rpc@.small_image is None && r.game_rpc@.small_text is None,
            r.game_cache@ == Map::<u64, (String, String)>::empty(),
    {
        Session {
            pid,
            mode,
            place_id: 0,
            job_id: String::new(),
            access_code: String::new(),
            server_ip: String::new(),
            server_port: 0,
            machine_address: String::new(),
            universe_id: 0,
            user_id: 0,
            user_name: String::new(),
            user_name_resolved: false,
            game_name: String::new(),
            game_icon_url: String::new(),
            connected: false,
            join_seq: 0,
            last_disconnect_seq: 0,
            rejoin_attempts: 0,
            rejoin_at: None,
            launch_data: String::new(),
            studio_open: false,
            presence_dirty: false,
            last_presence_push: None,
            next_rpc_retry: None,
            rpc_connected: false,
            game_rpc: GameRpcState::new(),
            game_cache: HashMap::new(),
        }
    }
}

// ---------------------------------------------------------------------------
// Rejoin links
// ---------------------------------------------------------------------------

/// The link that rejoins the current server: the join deeplink plus any
/// launch data the game asked for; none before a place is known.
pub open spec fn session_deeplink(s: SessionView) -> Option<Seq<char>> {
    if s.place_id == 0 {
        None
    } else {
        let link = deeplink_spec(s.place_id as nat, s.job_id, s.access_code);
        Some(
            if s.launch_data.len() > 0 {
                link + "&launchData="@ + s.launch_data
            } else {
                link
            },
        )
    }
}

/// A rejoin is scheduled after the delay when a place is known and the
/// attempt limit is not reached.
pub open spec fn with_rejoin_scheduled(s: SessionView, now: u64) -> SessionView {
    if s.place_id == 0 || s.rejoin_attempts >= MAX_AUTO_REJOINS {
        s
    } else {
        SessionView { rejoin_at: Some((now + REJOIN_DELAY_MS) as u64), ..s }
    }
}

impl Session {
    pub fn deeplink(&self) -> (r: Option<String>)
        ensures
            opt_str(r) == session_deeplink(self@),
    {
        if self.place_id == 0 {
            return None;
        }
        let mut link = start_deeplink(self.place_id, self.job_id.as_str(), self.access_code.as_str());
        if !self.launch_data.as_str().is_empty() {
            push_str(&mut link, "&launchData=");
            push_str(&mut link, self.launch_data.as_str());
        }
        Some(link)
    }

    fn schedule_rejoin(&mut self, now: u64)
        requires
            now <= MAX_CLOCK_MS,
        ensures
            final(self)@ == with_rejoin_scheduled(old(self)@, now),
    {
        if self.place_id == 0 {
            return;
        }
        if self.rejoin_attempts >= MAX_AUTO_REJOINS {
            return;
        }
        self.rejoin_at = Some(now + REJOIN_DELAY_MS);
    }
}

// ---------------------------------------------------------------------------
// Log lines
// ---------------------------------------------------------------------------

/// A Studio session only follows whether a place is open.
pub open spec fn studio_step(s: SessionView, m: Seq<char>) -> SessionView {
    if starts_with(m, MARK_STUDIO_OPEN@) {
        if !s.studio_open {
            SessionView { studio_open: true, presence_dirty: true, ..s }
        } else {
            s
        }
    } else if starts_with(m, MARK_STUDIO_CLOSE@) {
        if s.studio_open {
            SessionView { studio_open: false, presence_dirty: true, ..s }
        } else {
            s
        }
    } else {
        s
    }
}

/// Game name and icon for the current universe: from the cache when known,
/// else a lookup is requested.
pub open spec fn game_lookup(s: SessionView) -> (SessionView, Seq<ActionView>) {
    if s.universe_id == 0 {
        (s, Seq::empty())
    } else if s.game_cache.contains_key(s.universe_id) {
        (
            SessionView {
                game_name: s.game_cache[s.universe_id].0,
                game_icon_url: s.game_cache[s.universe_id].1,
                presence_dirty: true,
                ..s
            },
            Seq::empty(),
        )
    } else {
        (s, seq![ActionView::ResolveGameInfo(s.universe_id)])
    }
}

/// The account name is looked up once per session, for a known user.
pub open spec fn user_lookup(s: SessionView) -> (SessionView, Seq<ActionView>) {
    if s.user_name_resolved || s.user_id == 0 {
        (s, Seq::empty())
    } else {
        (SessionView { user_name_resolved: true, ..s }, seq![ActionView::ResolveUserName(s.user_id)])
    }
}

pub open spec fn write_only() -> Seq<ActionView> {
    seq![ActionView::WriteServerDetails]
}

/// `! Joining game`: a new join starts; the server is not yet connected.
pub open spec fn join_step(s: SessionView, m: Seq<char>) -> (SessionView, Seq<ActionView>) {
    match joining_game_spec(m) {
        Some((job, place, ip)) => (
            SessionView {
                place_id: place,
                job_id: job,
                machine_address: ip,
                access_code: Seq::empty(),
                connected: false,
                join_seq: (s.join_seq + 1) as u64,
                rejoin_attempts: 0,
                rejoin_at: None,
                presence_dirty: true,
                ..s
            },
            write_only(),
        ),
        None => (s, Seq::empty()),
    }
}

/// `serverId:`: connected to a server.
pub open spec fn server_step(s: SessionView, m: Seq<char>) -> (SessionView, Seq<ActionView>) {
    match server_id_spec(m) {
        Some((ip, port)) => (
            SessionView { server_ip: ip, server_port: port, connected: true, presence_dirty: true, ..s },
            write_only(),
        ),
        None => (s, Seq::empty()),
    }
}

/// Replication torn down: disconnected from the current join.
pub open spec fn disconnected_step(s: SessionView) -> (SessionView, Seq<ActionView>) {
    (
        SessionView { connected: false, last_disconnect_seq: s.join_seq, presence_dirty: true, ..s },
        write_only(),
    )
}

/// A disconnect reason: disconnected, and a rejoin scheduled for the
/// rejoinable reasons when automatic rejoin is on.
pub open spec fn reason_step(s: SessionView, st: Settings, m: Seq<char>, now: u64) -> (
    SessionView,
    Seq<ActionView>,
) {
    match disconnect_reason_spec(m) {
        Some(reason) => {
            let s1 = SessionView { connected: false, last_disconnect_seq: s.join_seq, ..s };
            let s2 = if st.auto_rejoin && (reason == 1 || reason == 277) {
                with_rejoin_scheduled(s1, now)
            } else {
                s1
            };
            (SessionView { presence_dirty: true, ..s2 }, write_only())
        },
        None => (s, Seq::empty()),
    }
}

/// Leaving the game: disconnected, and the client is closed when asked to.
pub open spec fn leaving_step(s: SessionView, st: Settings) -> (SessionView, Seq<ActionView>) {
    (
        SessionView { connected: false, presence_dirty: true, ..s },
        if st.close_on_leave_game {
            seq![ActionView::KillClient(s.pid), ActionView::WriteServerDetails]
        } else {
            write_only()
        },
    )
}

/// A teleport or reserved-server join: the next join line follows.
pub open spec fn teleport_step(s: SessionView) -> (SessionView, Seq<ActionView>) {
    (SessionView { connected: false, presence_dirty: true, ..s }, Seq::empty())
}

/// A private-server join carries the access code.
pub open spec fn private_step(s: SessionView, m: Seq<char>) -> (SessionView, Seq<ActionView>) {
    match access_code_spec(m) {
        Some(code) => (SessionView { access_code: code, ..s }, Seq::empty()),
        None => (s, Seq::empty()),
    }
}

/// The load-time report names the universe and the user; game and account
/// lookups follow when the settings use them.
pub open spec fn universe_step(s: SessionView, st: Settings, m: Seq<char>) -> (
    SessionView,
    Seq<ActionView>,
) {
    match universe_report_spec(m) {
        Some((universe, user)) => {
            let s1 = SessionView { universe_id: universe, user_id: user, presence_dirty: true, ..s };
            let g = if st.activity_tracking {
                game_lookup(s1)
            } else {
                (s1, Seq::empty())
            };
            let u = if st.discord_rpc && st.rpc_show_account {
                user_lookup(g.0)
            } else {
                (g.0, Seq::empty())
            };
            (u.0, g.1 + u.1 + write_only())
        },
        None => (s, Seq::empty()),
    }
}

/// The UDMUX address stands in for the server address until one is known.
pub open spec fn udmux_step(s: SessionView, m: Seq<char>) -> (SessionView, Seq<ActionView>) {
    match udmux_spec(m) {
        Some((udmux, _)) => if s.server_ip.len() == 0 {
            (SessionView { server_ip: udmux, ..s }, Seq::empty())
        } else {
            (s, Seq::empty())
        },
        None => (s, Seq::empty()),
    }
}

/// A game presence request is handed on for parsing.
pub open spec fn rpc_step(s: SessionView, m: Seq<char>) -> (SessionView, Seq<ActionView>) {
    match rpc_message_spec(m) {
        Some(payload) => (s, seq![ActionView::ApplyGameRpc(payload)]),
        None => (s, Seq::empty()),
    }
}

/// What one client log message does to a player session, and what it asks
/// for.
pub open spec fn player_step(s: SessionView, st: Settings, m: Seq<char>, now: u64) -> (
    SessionView,
    Seq<ActionView>,
) {
    if starts_with(m, MARK_JOINING_GAME@) {
        join_step(s, m)
    } else if starts_with(m, MARK_JOINED_SERVER@) {
        server_step(s, m)
    } else if starts_with(m, MARK_DISCONNECTED@) {
        disconnected_step(s)
    } else if starts_with(m, MARK_DISCONNECT_REASON@) {
        reason_step(s, st, m, now)
    } else if starts_with(m, MARK_LEAVING_GAME@) {
        leaving_step(s, st)
    } else if starts_with(m, MARK_TELEPORT@) || starts_with(m, MARK_RESERVED_JOIN@) {
        teleport_step(s)
    } else if starts_with(m, MARK_PRIVATE_JOIN@) {
        private_step(s, m)
    } else if starts_with(m, MARK_UNIVERSE_REPORT@) {
        universe_step(s, st, m)
    } else if starts_with(m, MARK_UDMUX@) {
        udmux_step(s, m)
    } else {
        rpc_step(s, m)
    }
}

/// What one client log line does: the timestamp prefix is dropped, then a
/// Studio session follows place open/close markers and a player session
/// the join, server, disconnect, teleport and report markers.
pub open spec fn line_step(s: SessionView, st: Settings, line: Seq<char>, now: u64) -> (
    SessionView,
    Seq<ActionView>,
) {
    let m = log_message(line);
    if !(s.mode is Player) {
        (studio_step(s, m), Seq::empty())
    } else {
        player_step(s, st, m, now)
    }
}

proof fn lemma_actions_push(v: Seq<WatchAction>, a: WatchAction)
    ensures
        actions_view(v.push(a)) == actions_view(v).push(action_view(a)),
{
    assert(actions_view(v.push(a)) =~= actions_view(v).push(action_view(a)));
}

impl Session {
    fn handle_studio_line(&mut self, message: &str)
        ensures
            final(self)@ == studio_step(old(self)@, message@),
    {
        let m = chars_of(message);
        if starts_with_str(m.as_slice(), MARK_STUDIO_OPEN) {
            if !self.studio_open {
                self.studio_open = true;
                self.presence_dirty = true;
            }
        } else if starts_with_str(m.as_slice(), MARK_STUDIO_CLOSE) {
            if self.studio_open {
                self.studio_open = false;
                self.presence_dirty = true;
            }
        }
    }

    fn lookup_game(&mut self, actions: &mut Vec<WatchAction>)
        ensures
            final(self)@ == game_lookup(old(self)@).0,
            actions_view(final(actions)@) == actions_view(old(actions)@) + game_lookup(old(self)@).1,
    {
        let universe = self.universe_id;
        if universe == 0 {
            assert(actions_view(actions@) =~= actions_view(old(actions)@) + Seq::empty());
            return;
        }
        match self.game_cache.get(&universe) {
            Some(entry) => {
                self.game_name = entry.0.clone();
                self.game_icon_url = entry.1.clone();
                self.presence_dirty = true;
                assert(actions_view(actions@) =~= actions_view(old(actions)@) + Seq::empty());
            },
            None => {
                let ghost before = actions@;
                actions.push(WatchAction::ResolveGameInfo(universe));
                proof {
                    lemma_actions_push(before, WatchAction::ResolveGameInfo(universe));
                }
                assert(actions_view(actions@) =~= actions_view(old(actions)@) + seq![
                    ActionView::ResolveGameInfo(universe),
                ]);
            },
        }
    }

    fn lookup_user(&mut self, actions: &mut Vec<WatchAction>)
        ensures
            final(self)@ == user_lookup(old(self)@).0,
            actions_view(final(actions)@) == actions_view(old(actions)@) + user_lookup(old(self)@).1,
    {
        if self.user_name_resolved || self.user_id == 0 {
            assert(actions_view(actions@) =~= actions_view(old(actions)@) + Seq::empty());
            return;
        }
        self.user_name_resolved = true;
        let ghost before = actions@;
        actions.push(WatchAction::ResolveUserName(self.user_id));
        proof {
            lemma_actions_push(before, WatchAction::ResolveUserName(self.user_id));
        }
        assert(actions_view(actions@) =~= actions_view(old(actions)@) + seq![
            ActionView::ResolveUserName(self.user_id),
        ]);
    }

    fn on_join(&mut self, message: &str) -> (r: Vec<WatchAction>)
        requires
            old(self).join_seq < u64::MAX,
        ensures
            (final(self)@, actions_view(r@)) == join_step(old(self)@, message@),
    {
        let mut actions: Vec<WatchAction> = Vec::new();
        match parse_joining_game(message) {
            Some(join) => {
                self.place_id = join.place_id;
                self.job_id = join.job_id;
                self.machine_address = join.machine_ip;
                self.access_code = String::new();
                self.connected = false;
                self.join_seq = self.join_seq + 1;
                self.rejoin_attempts = 0;
                self.rejoin_at = None;
                self.presence_dirty = true;
                actions.push(WatchAction::WriteServerDetails);
                assert(actions_view(actions@) =~= write_only());
            },
            None => {
                assert(actions_view(actions@) =~= Seq::empty());
            },
        }
        actions
    }

    fn on_server(&mut self, message: &str) -> (r: Vec<WatchAction>)
        ensures
            (final(self)@, actions_view(r@)) == server_step(old(self)@, message@),
    {
        let mut actions: Vec<WatchAction> = Vec::new();
        match parse_server_id(message) {
            Some((ip, port)) => {
                self.server_ip = ip;
                self.server_port = port;
                self.connected = true;
                self.presence_dirty = true;
                actions.push(WatchAction::WriteServerDetails);
                assert(actions_view(actions@) =~= write_only());
            },
            None => {
                assert(actions_view(actions@) =~= Seq::empty());
            },
        }
        actions
    }

    fn on_disconnected(&mut self) -> (r: Vec<WatchAction>)
        ensures
            (final(self)@, actions_view(r@)) == disconnected_step(old(self)@),
    {
        self.connected = false;
        self.last_disconnect_seq = self.join_seq;
        self.presence_dirty = true;
        let mut actions: Vec<WatchAction> = Vec::new();
        actions.push(WatchAction::WriteServerDetails);
        assert(actions_view(actions@) =~= write_only());
        actions
    }

    fn on_reason(&mut self, settings: &Settings, message: &str, now: u64) -> (r: Vec<WatchAction>)
        requires
            now <= MAX_CLOCK_MS,
        ensures
            (final(self)@, actions_view(r@)) == reason_step(old(self)@, *settings, message@, now),
    {
        let mut actions: Vec<WatchAction> = Vec::new();
        match parse_disconnect_reason(message) {
            Some(reason) => {
                self.connected = false;
                self.last_disconnect_seq = self.join_seq;
                if settings.auto_rejoin && crate::roblox::is_rejoinable_reason(reason) {
                    self.schedule_rejoin(now);
                }
                self.presence_dirty = true;
                actions.push(WatchAction::WriteServerDetails);
                assert(actions_view(actions@) =~= write_only());
            },
            None => {
                assert(actions_view(actions@) =~= Seq::empty());
            },
        }
        actions
    }

    fn on_leaving(&mut self, settings: &Settings) -> (r: Vec<WatchAction>)
        ensures
            (final(self)@, actions_view(r@)) == leaving_step(old(self)@, *settings),
    {
        self.connected = false;
        self.presence_dirty = true;
        let mut actions: Vec<WatchAction> = Vec::new();
        if settings.close_on_leave_game {
            actions.push(WatchAction::KillClient(self.pid));
        }
        actions.push(WatchAction::WriteServerDetails);
        assert(actions_view(actions@) =~= (if settings.close_on_leave_game {
            seq![ActionView::KillClient(self.pid), ActionView::WriteServerDetails]
        } else {
            write_only()
        }));
        actions
    }

    fn on_universe(&mut self, settings: &Settings, message: &str) -> (r: Vec<WatchAction>)
        ensures
            (final(self)@, actions_view(r@)) == universe_step(old(self)@, *settings, message@),
    {
        let mut actions: Vec<WatchAction> = Vec::new();
        match parse_universe_report(message) {
            Some((universe, user)) => {
                self.universe_id = universe;
                self.user_id = user;
                self.presence_dirty = true;
                let ghost s1 = self@;
                assert(actions_view(actions@) =~= Seq::empty());
                if settings.activity_tracking {
                    self.lookup_game(&mut actions);
                }
                let ghost s2 = self@;
                let ghost a1 = actions_view(actions@);
                if settings.discord_rpc && settings.rpc_show_account {
                    self.lookup_user(&mut actions);
                }
                let ghost before = actions@;
                actions.push(WatchAction::WriteServerDetails);
                proof {
                    lemma_actions_push(before, WatchAction::WriteServerDetails);
                    let g = if settings.activity_tracking {
                        game_lookup(s1)
                    } else {
                        (s1, Seq::<ActionView>::empty())
                    };
                    assert(g.0 == s2);
                    assert(g.1 =~= a1);
                    let u = if settings.discord_rpc && settings.rpc_show_account {
                        user_lookup(g.0)
                    } else {
                        (g.0, Seq::<ActionView>::empty())
                    };
                    assert(actions_view(before) =~= g.1 + u.1);
                    assert(actions_view(actions@) =~= g.1 + u.1 + write_only());
                }
            },
            None => {
                assert(actions_view(actions@) =~= Seq::empty());
            },
        }
        actions
    }

    fn on_udmux(&mut self, message: &str)
        ensures
            final(self)@ == udmux_step(old(self)@, message@).0,
    {
        match parse_udmux(message) {
            Some((udmux, _rcc)) => {
                if self.server_ip.as_str().is_empty() {
                    self.server_ip = udmux;
                }
            },
            None => {},
        }
    }

    fn on_other(&self, message: &str) -> (r: Vec<WatchAction>)
        ensures
            actions_view(r@) == rpc_step(self@, message@).1,
    {
        let mut actions: Vec<WatchAction> = Vec::new();
        match parse_rpc_message(message) {
            Some(payload) => {
                actions.push(WatchAction::ApplyGameRpc(str_to_string(payload)));
                assert(actions_view(actions@) =~= seq![ActionView::ApplyGameRpc(payload@)]);
            },
            None => {
                assert(actions_view(actions@) =~= Seq::empty());
            },
        }
        actions
    }

    fn handle_player_message(&mut self, settings: &Settings, message: &str, now: u64) -> (r: Vec<
        WatchAction,
    >)
        requires
            now <= MAX_CLOCK_MS,
            old(self).join_seq < u64::MAX,
        ensures
            (final(self)@, actions_view(r@)) == player_step(old(self)@, *settings, message@, now),
    {
        let m = chars_of(message);
        let ms = m.as_slice();
        if starts_with_str(ms, MARK_JOINING_GAME) {
            return self.on_join(message);
        }
        if starts_with_str(ms, MARK_JOINED_SERVER) {
            return self.on_server(message);
        }
        if starts_with_str(ms, MARK_DISCONNECTED) {
            return self.on_disconnected();
        }
        if starts_with_str(ms, MARK_DISCONNECT_REASON) {
            return self.on_reason(settings, message, now);
        }
        if starts_with_str(ms, MARK_LEAVING_GAME) {
            return self.on_leaving(settings);
        }
        if starts_with_str(ms, MARK_TELEPORT) || starts_with_str(ms, MARK_RESERVED_JOIN) {
            self.connected = false;
            self.presence_dirty = true;
            let r: Vec<WatchAction> = Vec::new();
            assert(actions_view(r@) =~= Seq::empty());
            return r;
        }
        if starts_with_str(ms, MARK_PRIVATE_JOIN) {
            match parse_access_code(message) {
                Some(code) => {
                    self.access_code = code;
                },
                None => {},
            }
            let r: Vec<WatchAction> = Vec::new();
            assert(actions_view(r@) =~= Seq::empty());
            return r;
        }
        if starts_with_str(ms, MARK_UNIVERSE_REPORT) {
            return self.on_universe(settings, message);
        }
        if starts_with_str(ms, MARK_UDMUX) {
            self.on_udmux(message);
            let r: Vec<WatchAction> = Vec::new();
            assert(actions_view(r@) =~= Seq::empty());
            return r;
        }
        self.on_other(message)
    }

    /// Follow one client log line; returns what the caller must do next,
    /// in order.
    pub fn handle_line(&mut self, settings: &Settings, line: &str, now: u64) -> (r: Vec<WatchAction>)
        requires
            now <= MAX_CLOCK_MS,
            old(self).join_seq < u64::MAX,
        ensures
            (final(self)@, actions_view(r@)) == line_step(old(self)@, *settings, line@, now),
    {
        let message = strip_log_prefix(line);
        if self.mode.is_studio() {
            self.handle_studio_line(message);
            let r: Vec<WatchAction> = Vec::new();
            assert(actions_view(r@) =~= Seq::empty());
            return r;
        }
        self.handle_player_message(settings, message, now)
    }
}

// ---------------------------------------------------------------------------
// Results handed back by the caller
// ---------------------------------------------------------------------------

/// What a game presence request does: `SetRichPresence` merges its fields
/// into the game's presence, `SetLaunchData` records launch data for
/// rejoins, anything else is ignored.
pub open spec fn rpc_command_step(s: SessionView, c: RpcCommand) -> SessionView {
    if c.command@ == "SetRichPresence"@ {
        let g = s.game_rpc;
        let large = image_after(g.large_image, g.large_text, c.large_image);
        let small = image_after(g.small_image, g.small_text, c.small_image);
        SessionView {
            game_rpc: GameRpcView {
                details: match c.details {
                    Some(v) => Some(v@),
                    None => g.details,
                },
                state: match c.state {
                    Some(v) => Some(v@),
                    None => g.state,
                },
                time_start: match c.time_start {
                    Some(v) => Some(v),
                    None => g.time_start,
                },
                time_end: match c.time_end {
                    Some(v) => Some(v),
                    None => g.time_end,
                },
                large_image: large.0,
                large_text: large.1,
                small_image: small.0,
                small_text: small.1,
            },
            presence_dirty: true,
            ..s
        }
    } else if c.command@ == "SetLaunchData"@ {
        match c.launch_data {
            Some(d) => SessionView { launch_data: d@, ..s },
            None => s,
        }
    } else {
        s
    }
}

impl Session {
    /// Apply a parsed game presence request.
    pub fn apply_game_rpc(&mut self, command: RpcCommand)
        ensures
            final(self)@ == rpc_command_step(old(self)@, command),
    {
        let ghost c = command;
        let name = chars_of(command.command.as_str());
        if chars_eq_str(name.as_slice(), "SetRichPresence") {
            let mut rpc = GameRpcState::new();
            std::mem::swap(&mut rpc, &mut self.game_rpc);
            match command.details {
                Some(v) => {
                    rpc.details = Some(v);
                },
                None => {},
            }
            match command.state {
                Some(v) => {
                    rpc.state = Some(v);
                },
                None => {},
            }
            match command.time_start {
                Some(v) => {
                    rpc.time_start = Some(v);
                },
                None => {},
            }
            match command.time_end {
                Some(v) => {
                    rpc.time_end = Some(v);
                },
                None => {},
            }
            apply_image(&mut rpc.large_image, &mut rpc.large_text, command.large_image);
            apply_image(&mut rpc.small_image, &mut rpc.small_text, command.small_image);
            self.game_rpc = rpc;
            self.presence_dirty = true;
        } else if chars_eq_str(name.as_slice(), "SetLaunchData") {
            match command.launch_data {
                Some(data) => {
                    self.launch_data = data;
                },
                None => {},
            }
        }
    }

    /// Record a looked-up game name and icon for a universe: cached, and
    /// shown for the current game.
    pub fn game_info_fetched(&mut self, universe: u64, name: String, icon: String)
        ensures
            final(self)@ == (SessionView {
                game_name: name@,
                game_icon_url: icon@,
                presence_dirty: true,
                game_cache: old(self)@.game_cache.insert(universe, (name@, icon@)),
                ..old(self)@
            }),
    {
        self.game_cache.insert(universe, (name.clone(), icon.clone()));
        self.game_name = name;
        self.game_icon_url = icon;
        self.presence_dirty = true;
        proof {
            assert(cache_view(self.game_cache@) =~= cache_view(old(self).game_cache@).insert(
                universe,
                (name@, icon@),
            ));
        }
    }

    /// Record a looked-up account name; a missing or blank name changes
    /// nothing.
    pub fn user_name_fetched(&mut self, name: Option<String>)
        ensures
            match name {
                Some(n) => if trim(n@).len() > 0 {
                    final(self)@ == (SessionView {
                        user_name: n@,
                        presence_dirty: true,
                        ..old(self)@
                    })
                } else {
                    final(self)@ == old(self)@
                },
                None => final(self)@ == old(self)@,
            },
    {
        match name {
            Some(n) => {
                if trim_str(n.as_str()).len() > 0 {
                    self.user_name = n;
                    self.presence_dirty = true;
                }
            },
            None => {},
        }
    }
}

// ---------------------------------------------------------------------------
// Automatic rejoin
// ---------------------------------------------------------------------------

/// A scheduled rejoin that is due: it is consumed, and it goes ahead only
/// when the client is still running, no new join started, the server is
/// still lost, a link is known and automatic rejoin is still on. Going
/// ahead counts an attempt and gives the link to launch.
pub open spec fn rejoin_tick(s: SessionView, st: Settings, now: u64, alive: bool) -> (
    SessionView,
    Option<Seq<char>>,
) {
    match s.rejoin_at {
        None => (s, None),
        Some(at) => if now < at {
            (s, None)
        } else {
            let s1 = SessionView { rejoin_at: None, ..s };
            if s1.connected || s1.join_seq != s1.last_disconnect_seq || !alive {
                (s1, None)
            } else {
                match session_deeplink(s1) {
                    None => (s1, None),
                    Some(link) => if !st.auto_rejoin {
                        (s1, None)
                    } else {
                        (
                            SessionView { rejoin_attempts: (s1.rejoin_attempts + 1) as u32, ..s1 },
                            Some(link),
                        )
                    },
                }
            }
        },
    }
}

impl Session {
    /// Once a second: fire a due rejoin. `alive` tells whether the client
    /// process still exists.
    pub fn rejoin_due(&mut self, settings: &Settings, now: u64, alive: bool) -> (r: Option<String>)
        requires
            old(self).rejoin_attempts < u32::MAX,
        ensures
            (final(self)@, opt_str(r)) == rejoin_tick(old(self)@, *settings, now, alive),
    {
        let at = match self.rejoin_at {
            Some(at) => at,
            None => return None,
        };
        if now < at {
            return None;
        }
        self.rejoin_at = None;
        if self.connected || self.join_seq != self.last_disconnect_seq || !alive {
            return None;
        }
        let link = match self.deeplink() {
            Some(l) => l,
            None => return None,
        };
        if !settings.auto_rejoin {
            return None;
        }
        self.rejoin_attempts = self.rejoin_attempts + 1;
        Some(link)
    }
}

// ---------------------------------------------------------------------------
// Presence publishing
// ---------------------------------------------------------------------------

/// What to do about Discord this tick.
#[derive(Debug, Clone, Copy, PartialEq, Eq)]
pub enum PresenceStep {
    /// Nothing: presence is off, unchanged, throttled, or backing off.
    Idle,
    /// Connect to Discord, then publish.
    Connect,
    /// Publish over the open connection.
    Publish,
}

pub open spec fn presence_step_spec(s: SessionView, st: Settings, now: u64) -> PresenceStep {
    if !st.discord_rpc || trim(st.discord_client_id@).len() == 0 {
        PresenceStep::Idle
    } else if !s.presence_dirty {
        PresenceStep::Idle
    } else if s.last_presence_push matches Some(last) && now < last + PRESENCE_THROTTLE_MS {
        PresenceStep::Idle
    } else if s.next_rpc_retry matches Some(retry) && now < retry {
        PresenceStep::Idle
    } else if !s.rpc_connected {
        PresenceStep::Connect
    } else {
        PresenceStep::Publish
    }
}

impl Session {
    pub fn presence_step(&self, settings: &Settings, now: u64) -> (r: PresenceStep)
        ensures
            r == presence_step_spec(self@, *settings, now),
    {
        if !settings.discord_rpc || trim_str(settings.discord_client_id.as_str()).len() == 0 {
            return PresenceStep::Idle;
        }
        if !self.presence_dirty {
            return PresenceStep::Idle;
        }
        match self.last_presence_push {
            Some(last) => {
                if (now as u128) < (last as u128) + (PRESENCE_THROTTLE_MS as u128) {
                    return PresenceStep::Idle;
                }
            },
            None => {},
        }
        match self.next_rpc_retry {
            Some(retry) => {
                if now < retry {
                    return PresenceStep::Idle;
                }
            },
            None => {},
        }
        if !self.rpc_connected {
            PresenceStep::Connect
        } else {
            PresenceStep::Publish
        }
    }

    /// Record the outcome of connecting to Discord; a failure backs off.
    pub fn presence_connected(&mut self, ok: bool, now: u64)
        requires
            now <= MAX_CLOCK_MS,
        ensures
            ok ==> final(self)@ == (SessionView { rpc_connected: true, ..old(self)@ }),
            !ok ==> final(self)@ == (SessionView {
                next_rpc_retry: Some((now + RPC_CONNECT_RETRY_MS) as u64),
                ..old(self)@
            }),
    {
        if ok {
            self.rpc_connected = true;
        } else {
            self.next_rpc_retry = Some(now + RPC_CONNECT_RETRY_MS);
        }
    }

    /// Record the outcome of publishing: success clears the pending
    /// change, failure drops the connection and backs off.
    pub fn presence_published(&mut self, ok: bool, now: u64)
        requires
            now <= MAX_CLOCK_MS,
        ensures
            ok ==> final(self)@ == (SessionView {
                presence_dirty: false,
                last_presence_push: Some(now),
                ..old(self)@
            }),
            !ok ==> final(self)@ == (SessionView {
                rpc_connected: false,
                next_rpc_retry: Some((now + RPC_WRITE_RETRY_MS) as u64),
                ..old(self)@
            }),
    {
        if ok {
            self.presence_dirty = false;
            self.last_presence_push = Some(now);
        } else {
            self.rpc_connected = false;
            self.next_rpc_retry = Some(now + RPC_WRITE_RETRY_MS);
        }
    }
}

// ---------------------------------------------------------------------------
// Presence contents
// ---------------------------------------------------------------------------

pub open spec fn non_blank(o: Option<Seq<char>>) -> Option<Seq<char>> {
    match o {
        Some(v) => if trim(v).len() > 0 {
            Some(v)
        } else {
            None
        },
        None => None,
    }
}

/// The presence line under the title: the game's own, else the game name
/// when it is to be shown, else a generic line.
pub open spec fn presence_details(st: Settings, s: SessionView) -> Seq<char> {
    match non_blank(s.game_rpc.details) {
        Some(d) => d,
        None => if st.rpc_show_game_name && s.game_name.len() > 0 {
            s.game_name
        } else {
            "Playing Roblox"@
        },
    }
}

/// The presence state: the game's own, else the account when it is to be
/// shown, else whether the player is in a server.
pub open spec fn presence_state(st: Settings, s: SessionView) -> Seq<char> {
    match non_blank(s.game_rpc.state) {
        Some(v) => v,
        None => if st.rpc_show_account && s.user_name.len() > 0 {
            "as "@ + s.user_name
        } else if s.connected {
            "In a server"@
        } else {
            "In the menu"@
        },
    }
}

/// The presence published for a session at `now` (Unix seconds).
pub open spec fn presence_for(p: Presence, st: Settings, s: SessionView, now: i64) -> bool {
    if !(s.mode is Player) {
        &&& opt_str(p.details) == Some("Roblox Studio"@)
        &&& opt_str(p.state) == Some(
            if s.studio_open {
                "Editing a place"@
            } else {
                "Idling"@
            },
        )
        &&& p.start == Some(now)
        &&& p.end is None
        &&& p.large_image is None && p.large_text is None
        &&& p.small_image is None && p.small_text is None
        &&& p.buttons@.len() == 0
    } else {
        &&& opt_str(p.details) == Some(presence_details(st, s))
        &&& opt_str(p.state) == Some(presence_state(st, s))
        &&& p.start == Some(
            match s.game_rpc.time_start {
                Some(t) => t,
                None => now,
            },
        )
        &&& p.end == s.game_rpc.time_end
        &&& opt_str(p.large_image) == s.game_rpc.large_image
        &&& opt_str(p.large_text) == s.game_rpc.large_text
        &&& opt_str(p.small_image) == s.game_rpc.small_image
        &&& opt_str(p.small_text) == s.game_rpc.small_text
        &&& if !st.rpc_hide_buttons && s.place_id > 0 {
            &&& p.buttons@.len() == 1
            &&& p.buttons@[0].0@ == "View Game"@
            &&& p.buttons@[0].1@ == "https://www."@ + trim(st.roblox_domain@) + "/games/"@ + dec(
                s.place_id as nat,
            ) + "/x"@
        } else {
            p.buttons@.len() == 0
        }
    }
}

fn non_blank_exec(o: &Option<String>) -> (r: Option<String>)
    ensures
        opt_str(r) == non_blank(opt_str(*o)),
{
    match o {
        Some(v) => if trim_str(v.as_str()).len() > 0 {
            Some(v.clone())
        } else {
            None
        },
        None => None,
    }
}

fn opt_clone(o: &Option<String>) -> (r: Option<String>)
    ensures
        opt_str(r) == opt_str(*o),
{
    match o {
        Some(v) => Some(v.clone()),
        None => None,
    }
}

impl Session {
    /// The presence to publish now (`now` in Unix seconds).
    pub fn build_presence(&self, settings: &Settings, now: i64) -> (r: Presence)
        ensures
            presence_for(r, *settings, self@, now),
    {
        let mut presence = Presence::default();
        if self.mode.is_studio() {
            presence.details = Some(str_to_string("Roblox Studio"));
            presence.state = Some(
                if self.studio_open {
                    str_to_string("Editing a place")
                } else {
                    str_to_string("Idling")
                },
            );
            presence.start = Some(now);
            return presence;
        }
        let details = match non_blank_exec(&self.game_rpc.details) {
            Some(d) => d,
            None => if settings.rpc_show_game_name && !self.game_name.as_str().is_empty() {
                self.game_name.clone()
            } else {
                str_to_string("Playing Roblox")
            },
        };
        presence.details = Some(details);
        let state = match non_blank_exec(&self.game_rpc.state) {
            Some(v) => v,
            None => if settings.rpc_show_account && !self.user_name.as_str().is_empty() {
                let mut t = str_to_string("as ");
                push_str(&mut t, self.user_name.as_str());
                t
            } else if self.connected {
                str_to_string("In a server")
            } else {
                str_to_string("In the menu")
            },
        };
        presence.state = Some(state);
        presence.start = match self.game_rpc.time_start {
            Some(t) => Some(t),
            None => Some(now),
        };
        presence.end = self.game_rpc.time_end;
        presence.large_image = opt_clone(&self.game_rpc.large_image);
        presence.large_text = opt_clone(&self.game_rpc.large_text);
        presence.small_image = opt_clone(&self.game_rpc.small_image);
        presence.small_text = opt_clone(&self.game_rpc.small_text);
        if !settings.rpc_hide_buttons && self.place_id > 0 {
            let mut url = str_to_string("https://www.");
            let domain = trim_str(settings.roblox_domain.as_str());
            crate::text::push_chars(&mut url, domain.as_slice());
            push_str(&mut url, "/games/");
            push_dec(&mut url, self.place_id);
            push_str(&mut url, "/x");
            presence.buttons.push((str_to_string("View Game"), url));
        }
        presence
    }
}

// ---------------------------------------------------------------------------
// Server snapshot and session end
// ---------------------------------------------------------------------------

/// The server snapshot the desktop app displays.
#[derive(Debug, Clone)]
pub struct ServerDetails {
    pub active: bool,
    pub mode: String,
    pub place_id: u64,
    pub job_id: String,
    pub server_ip: String,
    pub server_port: u16,
    pub machine_address: String,
    pub universe_id: u64,
    pub game_name: String,
    pub game_icon_url: String,
    pub connected: bool,
}

impl Session {
    /// The snapshot of a player session; Studio sessions have none.
    pub fn server_details(&self) -> (r: Option<ServerDetails>)
        ensures
            !(self.mode is Player) ==> r is None,
            self.mode is Player ==> (r matches Some(d) && {
                &&& d.active
                &&& d.mode@ == "player"@
                &&& d.place_id == self.place_id
                &&& d.job_id@ == self.job_id@
                &&& d.server_ip@ == self.server_ip@
                &&& d.server_port == self.server_port
                &&& d.machine_address@ == self.machine_address@
                &&& d.universe_id == self.universe_id
                &&& d.game_name@ == self.game_name@
                &&& d.game_icon_url@ == self.game_icon_url@
                &&& d.connected == self.connected
            }),
    {
        if self.mode.is_studio() {
            return None;
        }
        Some(
            ServerDetails {
                active: true,
                mode: str_to_string(self.mode.as_str()),
                place_id: self.place_id,
                job_id: self.job_id.clone(),
                server_ip: self.server_ip.clone(),
                server_port: self.server_port,
                machine_address: self.machine_address.clone(),
                universe_id: self.universe_id,
                game_name: self.game_name.clone(),
                game_icon_url: self.game_icon_url.clone(),
                connected: self.connected,
            },
        )
    }
}

/// Whether a finished session adds to the playtime total: player sessions
/// of some length, with the counter on.
pub fn records_playtime(settings: &Settings, mode: LaunchMode, secs: u64) -> (r: bool)
    ensures
        r == (settings.playtime_counter && mode is Player && secs > 0),
{
    settings.playtime_counter && !mode.is_studio() && secs > 0
}

/// Whether the cleaner runs when the client closes.
pub fn cleans_on_close(settings: &Settings) -> (r: bool)
    ensures
        r == (settings.cleaner is OnClose),
{
    match settings.cleaner {
        CleanerMode::OnClose => true,
        _ => false,
    }
}

impl State {
    /// Add a session's length to the playtime total, saturating.
    pub fn add_playtime(&mut self, secs: u64)
        ensures
            final(self).playtime_total_secs == (if old(self).playtime_total_secs + secs
                > u64::MAX {
                u64::MAX as int
            } else {
                old(self).playtime_total_secs + secs
            }),
            final(self).schema_version == old(self).schema_version,
            final(self).last_page == old(self).last_page,
            final(self).force_reinstall == old(self).force_reinstall,
            final(self).mods == old(self).mods,
            final(self).skipped_update_version == old(self).skipped_update_version,
    {
        self.playtime_total_secs = self.playtime_total_secs.saturating_add(secs);
    }
}

// ---------------------------------------------------------------------------
// Rejoin limit
// ---------------------------------------------------------------------------

/// Rejoin bookkeeping within its limit: never more attempts than the
/// limit, and a pending rejoin only while another attempt is allowed.
pub open spec fn rejoin_within_limit(s: SessionView) -> bool {
    &&& s.rejoin_attempts <= MAX_AUTO_REJOINS
    &&& s.rejoin_at is Some ==> s.rejoin_attempts < MAX_AUTO_REJOINS
}

/// Log lines keep the rejoin limit: a join resets the count, and a rejoin
/// is scheduled only below the limit.
pub proof fn law_log_lines_keep_rejoin_limit(s: SessionView, st: Settings, line: Seq<char>, now: u64)
    requires
        rejoin_within_limit(s),
    ensures
        rejoin_within_limit(line_step(s, st, line, now).0),
{
}

/// A due rejoin keeps the rejoin limit: it consumes the pending rejoin
/// before counting the attempt, so a watcher never rejoins more often than
/// the limit between two joins.
pub proof fn law_rejoins_keep_rejoin_limit(s: SessionView, st: Settings, now: u64, alive: bool)
    requires
        rejoin_within_limit(s),
    ensures
        rejoin_within_limit(rejoin_tick(s, st, now, alive).0),
        rejoin_tick(s, st, now, alive).1 is Some ==> rejoin_tick(s, st, now, alive).0.rejoin_attempts
            == s.rejoin_attempts + 1 && s.rejoin_at is Some,
{
}

/// A rejoin is only launched for the join that was lost: the client must
/// be running and disconnected, with no join started since.
pub proof fn law_rejoin_only_after_loss(s: SessionView, st: Settings, now: u64, alive: bool)
    requires
        rejoin_tick(s, st, now, alive).1 is Some,
    ensures
        alive,
        !s.connected,
        s.join_seq == s.last_disconnect_seq,
        st.auto_rejoin,
        rejoin_tick(s, st, now, alive).1 == session_deeplink(s),
{
}

/// A disconnect with a reason marks the session disconnected from its
/// current join; when automatic rejoin is on and the reason is one a rejoin
/// can mend (1, an idle kick, or 277, a lost connection), a rejoin is
/// scheduled `REJOIN_DELAY_MS` later for a known place below the rejoin
/// limit; for any other reason, or with rejoin off, no rejoin is scheduled.
pub proof fn law_rejoinable_disconnect_schedules_rejoin(
    s: SessionView,
    st: Settings,
    line: Seq<char>,
    now: u64,
    reason: u32,
)
    requires
        s.mode is Player,
        disconnect_reason_spec(log_message(line)) == Some(reason),
    ensures
        ({
            let r = line_step(s, st, line, now).0;
            &&& !r.connected
            &&& r.last_disconnect_seq == s.join_seq
            &&& st.auto_rejoin && (reason == 1 || reason == 277) && s.place_id != 0
                && s.rejoin_attempts < MAX_AUTO_REJOINS ==> r.rejoin_at == Some(
                (now + REJOIN_DELAY_MS) as u64,
            )
            &&& !(st.auto_rejoin && (reason == 1 || reason == 277)) ==> r.rejoin_at == s.rejoin_at
        }),
{
    let m = log_message(line);
    reveal_strlit("[FLog::Network] Sending disconnect with reason:");
    reveal_strlit("[FLog::Output] ! Joining game");
    reveal_strlit("[FLog::Network] serverId:");
    reveal_strlit("[FLog::Network] Time to disconnect replication data:");
    assert(starts_with(m, MARK_DISCONNECT_REASON@));
    let k = MARK_DISCONNECT_REASON@.len() as int;
    assert(m.take(k)[7] == m[7] && m.take(k)[16] == m[16]);
    assert(m[7] == 'N' && m[16] == 'S');
    if starts_with(m, MARK_JOINING_GAME@) {
        assert(m.take(MARK_JOINING_GAME@.len() as int)[7] == m[7]);
    }
    if starts_with(m, MARK_JOINED_SERVER@) {
        assert(m.take(MARK_JOINED_SERVER@.len() as int)[16] == m[16]);
    }
    if starts_with(m, MARK_DISCONNECTED@) {
        assert(m.take(MARK_DISCONNECTED@.len() as int)[16] == m[16]);
    }
    assert(line_step(s, st, line, now) == reason_step(s, st, m, now));
}

} // verus!
