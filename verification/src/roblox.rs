//! Roblox launch targets, deeplinks, and client-log parsing.
//!
//! Log parsing is allocation-light on purpose: the watcher tails the log at
//! 1 Hz, so every matcher is a plain prefix test or a manual scan.

use vstd::prelude::*;

use crate::consts::{BINARY_TYPE_PLAYER, BINARY_TYPE_STUDIO, ROBLOX_PLAYER_EXE, ROBLOX_STUDIO_EXE};
use crate::text::{
    char_len, chars_eq_str, chars_of, dec, find_char, find_char_exec, find_sub,
    find_sub_from, find_sub_str, is_digit, lemma_find_char_from, lemma_find_sub_from,
    lemma_split_char_len, lower, lower_vec, parse_u16, parse_u16_exec, parse_u32,
    parse_u32_exec, parse_u64, parse_u64_exec, push_chars, push_dec, push_str, split_char,
    split_char_exec, ends_with, starts_with, starts_with_str, string_of, strip_prefix, strip_prefix_str,
    str_to_string, subvec, substr, trim, trim_set, trim_set_vec, trim_str, trim_vec, words, words_exec,
};

verus! {

// ---------------------------------------------------------------------------
// Launch targets
// ---------------------------------------------------------------------------

/// Which Roblox application to launch.
#[derive(Debug, Clone, Copy, PartialEq, Eq, Default)]
pub enum LaunchMode {
    #[default]
    Player,
    Studio,
    /// Studio opened through the `roblox-studio-auth:` protocol.
    StudioAuth,
}

/// What `LaunchMode::parse` accepts (after trimming, ignoring ASCII case).
pub open spec fn launch_mode_from_text(text: Seq<char>) -> Option<LaunchMode> {
    let t = lower(trim(text));
    if t == "player"@ {
        Some(LaunchMode::Player)
    } else if t == "studio"@ {
        Some(LaunchMode::Studio)
    } else if t == "studioauth"@ || t == "studio-auth"@ {
        Some(LaunchMode::StudioAuth)
    } else {
        None
    }
}

impl LaunchMode {
    pub fn parse(text: &str) -> (r: Option<LaunchMode>)
        ensures
            r == launch_mode_from_text(text@),
    {
        let t = lower_vec(trim_str(text).as_slice());
        if chars_eq_str(t.as_slice(), "player") {
            Some(LaunchMode::Player)
        } else if chars_eq_str(t.as_slice(), "studio") {
            Some(LaunchMode::Studio)
        } else if chars_eq_str(t.as_slice(), "studioauth") || chars_eq_str(t.as_slice(), "studio-auth") {
            Some(LaunchMode::StudioAuth)
        } else {
            None
        }
    }

    pub fn as_str(self) -> (r: &'static str)
        ensures
            r@ == match self {
                LaunchMode::Player => "player"@,
                LaunchMode::Studio => "studio"@,
                LaunchMode::StudioAuth => "studio-auth"@,
            },
    {
        match self {
            LaunchMode::Player => "player",
            LaunchMode::Studio => "studio",
            LaunchMode::StudioAuth => "studio-auth",
        }
    }

    pub fn label(self) -> (r: &'static str)
        ensures
            r@ == match self {
                LaunchMode::Player => "Roblox Player"@,
                _ => "Roblox Studio"@,
            },
    {
        match self {
            LaunchMode::Player => "Roblox Player",
            LaunchMode::Studio => "Roblox Studio",
            LaunchMode::StudioAuth => "Roblox Studio",
        }
    }

    pub fn exe_name(self) -> (r: &'static str)
        ensures
            r@ == match self {
                LaunchMode::Player => ROBLOX_PLAYER_EXE@,
                _ => ROBLOX_STUDIO_EXE@,
            },
    {
        match self {
            LaunchMode::Player => ROBLOX_PLAYER_EXE,
            LaunchMode::Studio | LaunchMode::StudioAuth => ROBLOX_STUDIO_EXE,
        }
    }

    pub fn binary_type(self) -> (r: &'static str)
        ensures
            r@ == match self {
                LaunchMode::Player => BINARY_TYPE_PLAYER@,
                _ => BINARY_TYPE_STUDIO@,
            },
    {
        match self {
            LaunchMode::Player => BINARY_TYPE_PLAYER,
            LaunchMode::Studio | LaunchMode::StudioAuth => BINARY_TYPE_STUDIO,
        }
    }

    pub fn is_studio(self) -> (r: bool)
        ensures
            r == !(self is Player),
    {
        match self {
            LaunchMode::Player => false,
            _ => true,
        }
    }
}

// ---------------------------------------------------------------------------
// Deeplinks
// ---------------------------------------------------------------------------

/// The deeplink text for a place, optionally a server or a private server.
pub open spec fn deeplink_spec(place_id: nat, job_id: Seq<char>, access_code: Seq<char>) -> Seq<char> {
    let base = "roblox://experiences/start?placeId="@ + dec(place_id);
    if access_code.len() > 0 {
        base + "&accessCode="@ + access_code
    } else if job_id.len() > 0 {
        base + "&gameInstanceId="@ + job_id
    } else {
        base
    }
}

/// A deeplink starts a place: it begins with the place's link; with an
/// access code it ends with `&accessCode=` and that code, whatever the job
/// id; without one, a job id ends it as `&gameInstanceId=` and the id; with
/// neither it is the place's link alone.
pub proof fn law_deeplink_targets(place_id: nat, job_id: Seq<char>, access_code: Seq<char>, other_job: Seq<char>)
    ensures
        starts_with(
            deeplink_spec(place_id, job_id, access_code),
            "roblox://experiences/start?placeId="@ + dec(place_id),
        ),
        access_code.len() > 0 ==> ends_with(
            deeplink_spec(place_id, job_id, access_code),
            "&accessCode="@ + access_code,
        ),
        access_code.len() > 0 ==> deeplink_spec(place_id, job_id, access_code) == deeplink_spec(
            place_id,
            other_job,
            access_code,
        ),
        access_code.len() == 0 && job_id.len() > 0 ==> ends_with(
            deeplink_spec(place_id, job_id, access_code),
            "&gameInstanceId="@ + job_id,
        ),
        access_code.len() == 0 && job_id.len() == 0 ==> deeplink_spec(place_id, job_id, access_code)
            == "roblox://experiences/start?placeId="@ + dec(place_id),
{
    let base = "roblox://experiences/start?placeId="@ + dec(place_id);
    let d = deeplink_spec(place_id, job_id, access_code);
    if access_code.len() > 0 {
        let tail = "&accessCode="@ + access_code;
        assert(d =~= base + tail);
        assert(d.take(base.len() as int) =~= base);
        assert(d.skip(d.len() - tail.len()) =~= tail);
    } else if job_id.len() > 0 {
        let tail = "&gameInstanceId="@ + job_id;
        assert(d =~= base + tail);
        assert(d.take(base.len() as int) =~= base);
        assert(d.skip(d.len() - tail.len()) =~= tail);
    } else {
        assert(d.take(base.len() as int) =~= base);
    }
}

/// `roblox://experiences/start?placeId=...` deeplink used by game shortcuts
/// and server rejoins. An access code wins over a job id.
pub fn start_deeplink(place_id: u64, job_id: &str, access_code: &str) -> (r: String)
    ensures
        r@ == deeplink_spec(place_id as nat, job_id@, access_code@),
{
    let mut link = String::new();
    push_str(&mut link, "roblox://experiences/start?placeId=");
    push_dec(&mut link, place_id);
    if char_len(access_code) > 0 {
        push_str(&mut link, "&accessCode=");
        push_str(&mut link, access_code);
    } else if char_len(job_id) > 0 {
        push_str(&mut link, "&gameInstanceId=");
        push_str(&mut link, job_id);
    }
    link
}

/// What `parse_gameshortcut` returns for a `placeId[;jobId[;accessCode]]`
/// payload.
pub open spec fn gameshortcut_spec(data: Seq<char>) -> Option<Seq<char>> {
    let parts = split_char(data, ';');
    match parse_u64(trim(parts[0])) {
        Some(place) => if place == 0 {
            None
        } else {
            let job = if parts.len() > 1 {
                trim(parts[1])
            } else {
                Seq::empty()
            };
            let access = if parts.len() > 2 {
                trim(parts[2])
            } else {
                Seq::empty()
            };
            Some(deeplink_spec(place as nat, job, access))
        },
        None => None,
    }
}

/// Parse a `-gameshortcut`-style payload: `placeId[;jobId[;accessCode]]`.
pub fn parse_gameshortcut(data: &str) -> (r: Option<String>)
    ensures
        match r {
            Some(s) => gameshortcut_spec(data@) == Some(s@),
            None => gameshortcut_spec(data@) is None,
        },
{
    let parts = split_char_exec(chars_of(data).as_slice(), ';');
    proof {
        lemma_split_char_len(data@, ';');
    }
    let place = match parse_u64_exec(trim_vec(parts[0].as_slice()).as_slice()) {
        Some(p) => p,
        None => return None,
    };
    if place == 0 {
        return None;
    }
    let job = if parts.len() > 1 {
        trim_vec(parts[1].as_slice())
    } else {
        Vec::new()
    };
    let access = if parts.len() > 2 {
        trim_vec(parts[2].as_slice())
    } else {
        Vec::new()
    };
    let job_s = string_of(job.as_slice());
    let access_s = string_of(access.as_slice());
    Some(start_deeplink(place, job_s.as_str(), access_s.as_str()))
}

/// What `classify_protocol_arg` returns.
pub open spec fn protocol_mode(arg: Seq<char>) -> Option<LaunchMode> {
    let l = lower(arg);
    if starts_with(l, "roblox-player:"@) || starts_with(l, "roblox:"@) {
        Some(LaunchMode::Player)
    } else if starts_with(l, "roblox-studio-auth:"@) {
        Some(LaunchMode::StudioAuth)
    } else if starts_with(l, "roblox-studio:"@) {
        Some(LaunchMode::Studio)
    } else {
        None
    }
}

/// Protocol arguments launch the app their scheme names, ignoring ASCII
/// case: `roblox:` and `roblox-player:` the player, `roblox-studio-auth:`
/// Studio's sign-in, `roblox-studio:` Studio; any other argument is none of
/// them.
pub proof fn law_protocol_schemes(arg: Seq<char>)
    ensures
        starts_with(lower(arg), "roblox:"@) || starts_with(lower(arg), "roblox-player:"@)
            ==> protocol_mode(arg) == Some(LaunchMode::Player),
        starts_with(lower(arg), "roblox-studio-auth:"@) ==> protocol_mode(arg) == Some(
            LaunchMode::StudioAuth,
        ),
        starts_with(lower(arg), "roblox-studio:"@) ==> protocol_mode(arg) == Some(LaunchMode::Studio),
        !starts_with(lower(arg), "roblox"@) ==> protocol_mode(arg) is None,
{
    reveal_strlit("roblox:");
    reveal_strlit("roblox-player:");
    reveal_strlit("roblox-studio-auth:");
    reveal_strlit("roblox-studio:");
    reveal_strlit("roblox");
    let l = lower(arg);
    if starts_with(l, "roblox-studio:"@) {
        assert(l.take(14)[6] == l[6] && l.take(14)[7] == l[7] && l.take(14)[13] == l[13]);
        assert(l[6] == '-');
        assert(!starts_with(l, "roblox:"@));
        assert(l[7] == 's');
        assert(!starts_with(l, "roblox-player:"@));
        assert(l[13] == ':');
        assert(!starts_with(l, "roblox-studio-auth:"@));
    }
    if starts_with(l, "roblox-studio-auth:"@) {
        assert(l.take(19)[6] == l[6] && l.take(19)[7] == l[7]);
        assert(l[6] == '-');
        assert(!starts_with(l, "roblox:"@));
        assert(l[7] == 's');
        assert(!starts_with(l, "roblox-player:"@));
    }
    if !starts_with(l, "roblox"@) {
        if starts_with(l, "roblox:"@) {
            assert(l.take(6) =~= "roblox"@);
        }
        if starts_with(l, "roblox-player:"@) {
            assert(l.take(6) =~= "roblox"@);
        }
        if starts_with(l, "roblox-studio-auth:"@) {
            assert(l.take(6) =~= "roblox"@);
        }
        if starts_with(l, "roblox-studio:"@) {
            assert(l.take(6) =~= "roblox"@);
        }
    }
}

/// Classify a protocol URI given on the command line.
pub fn classify_protocol_arg(arg: &str) -> (r: Option<LaunchMode>)
    ensures
        r == protocol_mode(arg@),
{
    let l = lower_vec(chars_of(arg).as_slice());
    if starts_with_str(l.as_slice(), "roblox-player:") || starts_with_str(l.as_slice(), "roblox:") {
        Some(LaunchMode::Player)
    } else if starts_with_str(l.as_slice(), "roblox-studio-auth:") {
        Some(LaunchMode::StudioAuth)
    } else if starts_with_str(l.as_slice(), "roblox-studio:") {
        Some(LaunchMode::Studio)
    } else {
        None
    }
}

// ---------------------------------------------------------------------------
// Log line parsing
// ---------------------------------------------------------------------------

/// Everything after the first space (the timestamp prefix), or the whole
/// line when it has none.
pub open spec fn log_message(line: Seq<char>) -> Seq<char> {
    match find_char(line, ' ') {
        Some(i) => line.skip(i + 1),
        None => line,
    }
}

/// Strip the `timestamp ...` prefix: everything up to the first space.
/// Roblox log lines look like `2024-01-01T00:00:00.000Z,0.000000,... [FLog::...] ...`.
pub fn strip_log_prefix(line: &str) -> (r: &str)
    ensures
        r@ == log_message(line@),
{
    let v = chars_of(line);
    match find_char_exec(v.as_slice(), ' ', 0) {
        Some(i) => {
            proof {
                lemma_find_char_from(line@, ' ', 0);
            }
            let n = char_len(line);
            let r = substr(line, i + 1, n);
            assert(r@ =~= line@.skip(i + 1));
            r
        },
        None => line,
    }
}

// Marker prefixes (matched after the timestamp prefix is stripped).
pub const MARK_JOINING_GAME: &'static str = "[FLog::Output] ! Joining game";

pub const MARK_JOINED_SERVER: &'static str = "[FLog::Network] serverId:";

pub const MARK_DISCONNECTED: &'static str = "[FLog::Network] Time to disconnect replication data:";

pub const MARK_DISCONNECT_REASON: &'static str = "[FLog::Network] Sending disconnect with reason:";

pub const MARK_LEAVING_GAME: &'static str = "[FLog::SingleSurfaceApp] leaveUGCGameInternal";

pub const MARK_TELEPORT: &'static str = "[FLog::GameJoinUtil] GameJoinUtil::initiateTeleportToPlace";

pub const MARK_PRIVATE_JOIN: &'static str = "[FLog::GameJoinUtil] GameJoinUtil::joinGamePostPrivateServer";

pub const MARK_RESERVED_JOIN: &'static str =
    "[FLog::GameJoinUtil] GameJoinUtil::initiateTeleportToReservedServer";

pub const MARK_UNIVERSE_REPORT: &'static str = "[FLog::GameJoinLoadTime] Report game_join_loadtime:";

pub const MARK_UDMUX: &'static str = "[FLog::Network] UDMUX Address = ";

pub const MARK_RPC_LEGACY: &'static str = "[FLog::Output] [BloxstrapRPC]";

pub const MARK_RPC: &'static str = "[FLog::Output] [RedStrapRPC]";

pub const MARK_STUDIO_OPEN: &'static str = "[FLog::PlaceManager] Start to open place";

pub const MARK_STUDIO_CLOSE: &'static str = "[FLog::PlaceManager] PlaceManager::closeCurrentPlayDoc";

/// Parsed `! Joining game '{job}' place {place} at {ip}` line.
#[derive(Debug, Clone, PartialEq, Eq)]
pub struct JoinInfo {
    pub job_id: String,
    pub place_id: u64,
    pub machine_ip: String,
}

/// The job id: text after the opening quote up to the next quote.
pub open spec fn quoted_job(rest: Seq<char>) -> Seq<char> {
    let after = rest.drop_first();
    match find_char(after, '\'') {
        Some(i) => after.take(i),
        None => after,
    }
}

/// What `parse_joining_game` returns, as `(job, place, ip)`.
pub open spec fn joining_game_spec(message: Seq<char>) -> Option<(Seq<char>, u64, Seq<char>)> {
    match strip_prefix(message, MARK_JOINING_GAME@) {
        None => None,
        Some(raw) => {
            let rest = trim(raw);
            if !(rest.len() > 0 && rest[0] == '\'') || quoted_job(rest).len() == 0 {
                None
            } else {
                match find_sub(rest, "' place "@) {
                    None => None,
                    Some(i) => {
                        let w = words(rest.skip(i + "' place "@.len()));
                        if w.len() < 1 || parse_u64(w[0]) is None || w.len() < 2 || w[1] != "at"@
                            || w.len() < 3 || trim_set(w[2], seq![',', '\'']).len() == 0 {
                            None
                        } else {
                            Some(
                                (quoted_job(rest), parse_u64(w[0]).unwrap(), trim_set(w[2], seq![',', '\''])),
                            )
                        }
                    },
                }
            }
        },
    }
}

/// `! Joining game 'uuid' place 123 at 1.2.3.4` -> [`JoinInfo`].
pub fn parse_joining_game(message: &str) -> (r: Option<JoinInfo>)
    ensures
        match r {
            Some(info) => joining_game_spec(message@) == Some(
                (info.job_id@, info.place_id, info.machine_ip@),
            ),
            None => joining_game_spec(message@) is None,
        },
{
    let m = chars_of(message);
    let raw = match strip_prefix_str(m.as_slice(), MARK_JOINING_GAME) {
        Some(r) => r,
        None => return None,
    };
    let rest = trim_vec(raw.as_slice());
    if !(rest.len() > 0 && rest[0] == '\'') {
        return None;
    }
    let after = subvec(rest.as_slice(), 1, rest.len());
    assert(after@ =~= rest@.drop_first());
    let job = match find_char_exec(after.as_slice(), '\'', 0) {
        Some(i) => {
            proof {
                lemma_find_char_from(after@, '\'', 0);
            }
            let j = subvec(after.as_slice(), 0, i);
            assert(j@ =~= after@.take(i as int));
            j
        },
        None => after,
    };
    if job.len() == 0 {
        return None;
    }
    let i = match find_sub_str(rest.as_slice(), "' place ", 0) {
        Some(i) => i,
        None => return None,
    };
    proof {
        lemma_find_sub_from(rest@, "' place "@, 0);
    }
    let plen = char_len("' place ");
    let after_job = subvec(rest.as_slice(), i + plen, rest.len());
    assert(after_job@ =~= rest@.skip(i + "' place "@.len()));
    let w = words_exec(after_job.as_slice());
    if w.len() < 1 {
        return None;
    }
    let place = match parse_u64_exec(w[0].as_slice()) {
        Some(p) => p,
        None => return None,
    };
    if w.len() < 2 || !chars_eq_str(w[1].as_slice(), "at") || w.len() < 3 {
        return None;
    }
    let strip_set: Vec<char> = vec![',', '\''];
    let ip = trim_set_vec(w[2].as_slice(), strip_set.as_slice());
    assert(strip_set@ =~= seq![',', '\'']);
    if ip.len() == 0 {
        return None;
    }
    Some(JoinInfo { job_id: string_of(job.as_slice()), place_id: place, machine_ip: string_of(ip.as_slice()) })
}

/// What `parse_server_id` returns.
pub open spec fn server_id_spec(message: Seq<char>) -> Option<(Seq<char>, u16)> {
    match strip_prefix(message, MARK_JOINED_SERVER@) {
        None => None,
        Some(raw) => {
            let rest = trim(raw);
            match find_char(rest, '|') {
                None => None,
                Some(i) => match parse_u16(trim(rest.skip(i + 1))) {
                    Some(port) => Some((trim(rest.take(i)), port)),
                    None => None,
                },
            }
        },
    }
}

/// `serverId: 1.2.3.4|53640` -> `(ip, port)`.
pub fn parse_server_id(message: &str) -> (r: Option<(String, u16)>)
    ensures
        match r {
            Some((ip, port)) => server_id_spec(message@) == Some((ip@, port)),
            None => server_id_spec(message@) is None,
        },
{
    let m = chars_of(message);
    let raw = match strip_prefix_str(m.as_slice(), MARK_JOINED_SERVER) {
        Some(r) => r,
        None => return None,
    };
    let rest = trim_vec(raw.as_slice());
    let i = match find_char_exec(rest.as_slice(), '|', 0) {
        Some(i) => i,
        None => return None,
    };
    proof {
        lemma_find_char_from(rest@, '|', 0);
    }
    let n = rest.len();
    assert(i < n);
    let ip = subvec(rest.as_slice(), 0, i);
    let port_text = subvec(rest.as_slice(), i + 1, n);
    assert(ip@ =~= rest@.take(i as int));
    assert(port_text@ =~= rest@.skip(i + 1));
    match parse_u16_exec(trim_vec(port_text.as_slice()).as_slice()) {
        Some(port) => Some((string_of(trim_vec(ip.as_slice()).as_slice()), port)),
        None => None,
    }
}

/// First index at or after `i` holding an ASCII digit.
pub open spec fn next_digit(s: Seq<char>, i: int) -> int
    decreases s.len() - i,
{
    if i < 0 || i >= s.len() || is_digit(s[i]) {
        i
    } else {
        next_digit(s, i + 1)
    }
}

/// First index at or after `i` not holding an ASCII digit.
pub open spec fn run_end(s: Seq<char>, i: int) -> int
    decreases s.len() - i,
{
    if i < 0 || i >= s.len() || !is_digit(s[i]) {
        i
    } else {
        run_end(s, i + 1)
    }
}

proof fn lemma_next_digit(s: Seq<char>, i: int)
    requires
        0 <= i <= s.len(),
    ensures
        i <= next_digit(s, i) <= s.len(),
    decreases s.len() - i,
{
    if i < s.len() && !is_digit(s[i]) {
        lemma_next_digit(s, i + 1);
    }
}

proof fn lemma_run_end(s: Seq<char>, i: int)
    requires
        0 <= i <= s.len(),
    ensures
        i <= run_end(s, i) <= s.len(),
    decreases s.len() - i,
{
    if i < s.len() && is_digit(s[i]) {
        lemma_run_end(s, i + 1);
    }
}

/// The first run of ASCII digits (the first non-empty piece of a split at
/// non-digits), if any.
pub open spec fn first_digit_run(s: Seq<char>) -> Option<Seq<char>> {
    let a = next_digit(s, 0);
    if a >= s.len() {
        None
    } else {
        Some(s.subrange(a, run_end(s, a)))
    }
}

/// What `parse_disconnect_reason` returns.
pub open spec fn disconnect_reason_spec(message: Seq<char>) -> Option<u32> {
    match strip_prefix(message, MARK_DISCONNECT_REASON@) {
        None => None,
        Some(raw) => match first_digit_run(trim(raw)) {
            Some(run) => parse_u32(run),
            None => None,
        },
    }
}

/// `Sending disconnect with reason: 277` -> `277`.
pub fn parse_disconnect_reason(message: &str) -> (r: Option<u32>)
    ensures
        r == disconnect_reason_spec(message@),
{
    let m = chars_of(message);
    let raw = match strip_prefix_str(m.as_slice(), MARK_DISCONNECT_REASON) {
        Some(r) => r,
        None => return None,
    };
    let s = trim_vec(raw.as_slice());
    let mut a: usize = 0;
    while a < s.len() && !('0' <= s[a] && s[a] <= '9')
        invariant
            a <= s@.len(),
            next_digit(s@, 0) == next_digit(s@, a as int),
        decreases s.len() - a,
    {
        a += 1;
    }
    if a >= s.len() {
        return None;
    }
    let mut b: usize = a;
    while b < s.len() && '0' <= s[b] && s[b] <= '9'
        invariant
            a <= b <= s@.len(),
            run_end(s@, a as int) == run_end(s@, b as int),
        decreases s.len() - b,
    {
        b += 1;
    }
    let run = subvec(s.as_slice(), a, b);
    parse_u32_exec(run.as_slice())
}

/// Disconnect reasons that qualify for automatic rejoin:
/// 1 = inactivity timeout, 277 = connection lost.
pub fn is_rejoinable_reason(reason: u32) -> (r: bool)
    ensures
        r == (reason == 1 || reason == 277),
{
    reason == 1 || reason == 277
}

/// A key or value of the universe report: trimmed, then stripped of quotes.
pub open spec fn report_field(s: Seq<char>) -> Seq<char> {
    trim_set(trim(s), seq!['"'])
}

/// Scan the comma-separated `key:value` pairs from index `i` on, carrying
/// the universe and user ids seen so far. A pair without `:` rejects the
/// whole report.
pub open spec fn universe_scan(
    pairs: Seq<Seq<char>>,
    i: int,
    universe: Option<u64>,
    user: Option<u64>,
) -> Option<(Option<u64>, Option<u64>)>
    decreases pairs.len() - i,
{
    if i < 0 || i >= pairs.len() {
        Some((universe, user))
    } else {
        match find_char(pairs[i], ':') {
            None => None,
            Some(c) => {
                let key = report_field(pairs[i].take(c));
                let value = report_field(pairs[i].skip(c + 1));
                let u = if key == "universeid"@ {
                    parse_u64(value)
                } else {
                    universe
                };
                let id = if key == "userid"@ {
                    parse_u64(value)
                } else {
                    user
                };
                universe_scan(pairs, i + 1, u, id)
            },
        }
    }
}

/// What `parse_universe_report` returns.
pub open spec fn universe_report_spec(message: Seq<char>) -> Option<(u64, u64)> {
    match strip_prefix(message, MARK_UNIVERSE_REPORT@) {
        None => None,
        Some(rest) => match universe_scan(split_char(rest, ','), 0, None, None) {
            Some((Some(u), Some(id))) => Some((u, id)),
            _ => None,
        },
    }
}

/// `Report game_join_loadtime: ... universeid:123, ... userid:456 ...`.
///
/// The report is comma-separated `key:value` pairs; scan them directly.
pub fn parse_universe_report(message: &str) -> (r: Option<(u64, u64)>)
    ensures
        r == universe_report_spec(message@),
{
    let m = chars_of(message);
    let rest = match strip_prefix_str(m.as_slice(), MARK_UNIVERSE_REPORT) {
        Some(r) => r,
        None => return None,
    };
    let pairs = split_char_exec(rest.as_slice(), ',');
    let ghost ps = split_char(rest@, ',');
    let quote: Vec<char> = vec!['"'];
    assert(quote@ =~= seq!['"']);
    let mut universe: Option<u64> = None;
    let mut user: Option<u64> = None;
    let mut i: usize = 0;
    while i < pairs.len()
        invariant
            ps == split_char(rest@, ','),
            pairs@.len() == ps.len(),
            forall|k: int| 0 <= k < pairs@.len() ==> #[trigger] pairs@[k]@ == ps[k],
            quote@ == seq!['"'],
            strip_prefix(message@, MARK_UNIVERSE_REPORT@) == Some(rest@),
            i <= pairs@.len(),
            universe_scan(ps, 0, None, None) == universe_scan(ps, i as int, universe, user),
        decreases pairs.len() - i,
    {
        let pair = pairs[i].as_slice();
        let plen = pair.len();
        let c = match find_char_exec(pair, ':', 0) {
            Some(c) => c,
            None => return None,
        };
        proof {
            lemma_find_char_from(pair@, ':', 0);
        }
        let k0 = subvec(pair, 0, c);
        let v0 = subvec(pair, c + 1, plen);
        assert(k0@ =~= pair@.take(c as int));
        assert(v0@ =~= pair@.skip(c + 1));
        let key = trim_set_vec(trim_vec(k0.as_slice()).as_slice(), quote.as_slice());
        let value = trim_set_vec(trim_vec(v0.as_slice()).as_slice(), quote.as_slice());
        if chars_eq_str(key.as_slice(), "universeid") {
            universe = parse_u64_exec(value.as_slice());
        }
        if chars_eq_str(key.as_slice(), "userid") {
            user = parse_u64_exec(value.as_slice());
        }
        i += 1;
    }
    match (universe, user) {
        (Some(u), Some(id)) => Some((u, id)),
        _ => None,
    }
}

/// The piece between the first and second occurrence of `pat` (the second
/// piece of `split(pat)`), if `pat` occurs.
pub open spec fn second_piece(s: Seq<char>, pat: Seq<char>) -> Option<Seq<char>> {
    match find_sub(s, pat) {
        None => None,
        Some(i) => {
            let after = s.skip(i + pat.len());
            match find_sub(after, pat) {
                Some(j) => Some(after.take(j)),
                None => Some(after),
            }
        },
    }
}

/// What `parse_udmux` returns.
pub open spec fn udmux_spec(message: Seq<char>) -> Option<(Seq<char>, Seq<char>)> {
    match strip_prefix(message, MARK_UDMUX@) {
        None => None,
        Some(rest) => {
            let halves = split_char(rest, '|');
            let udmux = trim(split_char(halves[0], ',')[0]);
            if halves.len() < 2 {
                None
            } else {
                match second_piece(halves[1], "Address = "@) {
                    None => None,
                    Some(p) => {
                        let rcc = trim(split_char(p, ',')[0]);
                        if udmux.len() == 0 || rcc.len() == 0 {
                            None
                        } else {
                            Some((udmux, rcc))
                        }
                    },
                }
            }
        },
    }
}

/// `UDMUX Address = 1.2.3.4, Port = 53640 | RCC Server Address = 5.6.7.8, Port = 53640`
/// -> `(udmux_ip, rcc_ip)`.
pub fn parse_udmux(message: &str) -> (r: Option<(String, String)>)
    ensures
        match r {
            Some((a, b)) => udmux_spec(message@) == Some((a@, b@)),
            None => udmux_spec(message@) is None,
        },
{
    let m = chars_of(message);
    let rest = match strip_prefix_str(m.as_slice(), MARK_UDMUX) {
        Some(r) => r,
        None => return None,
    };
    let halves = split_char_exec(rest.as_slice(), '|');
    proof {
        lemma_split_char_len(rest@, '|');
    }
    let first = split_char_exec(halves[0].as_slice(), ',');
    proof {
        lemma_split_char_len(halves@[0]@, ',');
    }
    let udmux = trim_vec(first[0].as_slice());
    if halves.len() < 2 {
        return None;
    }
    let second = halves[1].as_slice();
    let slen = second.len();
    let pat = chars_of("Address = ");
    let i = match find_sub_str(second, "Address = ", 0) {
        Some(i) => i,
        None => return None,
    };
    proof {
        lemma_find_sub_from(second@, "Address = "@, 0);
    }
    let after = subvec(second, i + pat.len(), slen);
    assert(after@ =~= second@.skip(i + "Address = "@.len()));
    let piece = match find_sub_str(after.as_slice(), "Address = ", 0) {
        Some(j) => {
            proof {
                lemma_find_sub_from(after@, "Address = "@, 0);
            }
            let p = subvec(after.as_slice(), 0, j);
            assert(p@ =~= after@.take(j as int));
            p
        },
        None => after,
    };
    let rcc_parts = split_char_exec(piece.as_slice(), ',');
    proof {
        lemma_split_char_len(piece@, ',');
    }
    let rcc = trim_vec(rcc_parts[0].as_slice());
    if udmux.len() == 0 || rcc.len() == 0 {
        return None;
    }
    Some((string_of(udmux.as_slice()), string_of(rcc.as_slice())))
}

/// What `parse_rpc_message` returns: the trimmed text after either marker,
/// when not empty.
pub open spec fn rpc_message_spec(message: Seq<char>) -> Option<Seq<char>> {
    let rest = match strip_prefix(message, MARK_RPC_LEGACY@) {
        Some(r) => Some(r),
        None => strip_prefix(message, MARK_RPC@),
    };
    match rest {
        Some(r) => if trim(r).len() > 0 {
            Some(trim(r))
        } else {
            None
        },
        None => None,
    }
}

/// Extract the JSON payload of an in-game RPC message, accepting both the
/// legacy `[BloxstrapRPC]` marker (emitted by existing games) and the new
/// `[RedStrapRPC]` marker.
pub fn parse_rpc_message(message: &str) -> (r: Option<&str>)
    ensures
        match r {
            Some(s) => rpc_message_spec(message@) == Some(s@),
            None => rpc_message_spec(message@) is None,
        },
{
    let m = chars_of(message);
    let rest = match strip_prefix_str(m.as_slice(), MARK_RPC_LEGACY) {
        Some(r) => r,
        None => match strip_prefix_str(m.as_slice(), MARK_RPC) {
            Some(r) => r,
            None => return None,
        },
    };
    let t = trim_vec(rest.as_slice());
    if t.len() == 0 {
        return None;
    }
    // `rest` is a suffix of the message, and `t` sits inside it.
    let off = m.len() - rest.len();
    assert(rest@ =~= m@.skip(off as int));
    let (a, b) = trim_bounds(rest.as_slice());
    let r = substr(message, off + a, off + b);
    assert(r@ =~= rest@.subrange(a as int, b as int));
    assert(r@ =~= trim(rest@));
    Some(r)
}

/// Positions of the trimmed part of `s`.
fn trim_bounds(s: &[char]) -> (r: (usize, usize))
    ensures
        r.0 <= r.1 <= s@.len(),
        s@.subrange(r.0 as int, r.1 as int) == trim(s@),
{
    let mut a: usize = 0;
    while a < s.len() && crate::text::is_ws_exec(s[a])
        invariant
            a <= s@.len(),
            crate::text::skip_ws(s@, 0) == crate::text::skip_ws(s@, a as int),
        decreases s.len() - a,
    {
        a += 1;
    }
    let mut b: usize = s.len();
    let ghost tail = s@.skip(a as int);
    while b > a && crate::text::is_ws_exec(s[b - 1])
        invariant
            a <= b <= s@.len(),
            tail == s@.skip(a as int),
            crate::text::back_ws(tail, tail.len() as int) == crate::text::back_ws(tail, b - a),
        decreases b,
    {
        b -= 1;
    }
    proof {
        crate::text::lemma_skip_ws_bounds(s@, 0);
    }
    assert(s@.subrange(a as int, b as int) =~= trim(s@));
    (a, b)
}

/// What `parse_access_code` returns.
pub open spec fn access_code_spec(message: Seq<char>) -> Option<Seq<char>> {
    let key = "accessCode\":\""@;
    match find_sub(message, key) {
        None => None,
        Some(i) => {
            let start = i + key.len();
            match find_char(message.skip(start), '"') {
                None => None,
                Some(e) => if e == 0 {
                    None
                } else {
                    Some(message.subrange(start, start + e))
                },
            }
        },
    }
}

/// Extract `accessCode":"<uuid>"` from a private-server join line.
pub fn parse_access_code(message: &str) -> (r: Option<String>)
    ensures
        match r {
            Some(s) => access_code_spec(message@) == Some(s@),
            None => access_code_spec(message@) is None,
        },
{
    let m = chars_of(message);
    let key = chars_of("accessCode\":\"");
    let i = match find_sub_str(m.as_slice(), "accessCode\":\"", 0) {
        Some(i) => i,
        None => return None,
    };
    proof {
        lemma_find_sub_from(m@, "accessCode\":\""@, 0);
    }
    let mlen = m.len();
    let start = i + key.len();
    let tail = subvec(m.as_slice(), start, m.len());
    assert(tail@ =~= m@.skip(start as int));
    let e = match find_char_exec(tail.as_slice(), '"', 0) {
        Some(e) => e,
        None => return None,
    };
    proof {
        lemma_find_char_from(tail@, '"', 0);
    }
    if e == 0 {
        return None;
    }
    let code = subvec(m.as_slice(), start, start + e);
    Some(string_of(code.as_slice()))
}

/// The program and arguments that start Roblox: the executable itself,
/// or, when a custom command (e.g. `wine`) is set, its words followed by
/// the executable; then the trimmed launch arguments as one argument when
/// there are any.
pub open spec fn launch_argv_spec(exe: Seq<char>, args: Seq<char>, custom: Seq<char>) -> Seq<Seq<char>> {
    let prefix = if trim(custom).len() == 0 {
        seq![exe]
    } else {
        let w = crate::text::words(custom);
        (if w.len() > 0 { w } else { seq!["wine"@] }) + seq![exe]
    };
    if trim(args).len() > 0 {
        prefix.push(trim(args))
    } else {
        prefix
    }
}

/// Build the command line that starts Roblox (program first). On
/// non-Windows systems a `custom_command` prefixes the executable.
pub fn launch_argv(exe: &str, args: &str, custom_command: &str) -> (r: Vec<String>)
    ensures
        r@.map_values(|s: String| s@) == launch_argv_spec(exe@, args@, custom_command@),
{
    let mut out: Vec<String> = Vec::new();
    let ghost prefix: Seq<Seq<char>>;
    if trim_str(custom_command).len() == 0 {
        out.push(str_to_string(exe));
        proof {
            prefix = seq![exe@];
        }
    } else {
        let w = crate::text::words_exec(chars_of(custom_command).as_slice());
        let ghost wv = crate::text::words(custom_command@);
        if w.len() == 0 {
            out.push(str_to_string("wine"));
            proof {
                reveal_strlit("wine");
            }
        } else {
            let mut i: usize = 0;
            while i < w.len()
                invariant
                    i <= w@.len(),
                    w@.len() == wv.len(),
                    forall|k: int| 0 <= k < w@.len() ==> #[trigger] w@[k]@ == wv[k],
                    out@.map_values(|s: String| s@) == wv.take(i as int),
                decreases w.len() - i,
            {
                let ghost before = out@;
                out.push(string_of(w[i].as_slice()));
                proof {
                    assert(out@.map_values(|s: String| s@) =~= before.map_values(|s: String| s@).push(wv[i as int]));
                    assert(wv.take(i + 1) =~= wv.take(i as int).push(wv[i as int]));
                }
                i += 1;
            }
            assert(wv.take(wv.len() as int) =~= wv);
        }
        let ghost before = out@;
        out.push(str_to_string(exe));
        proof {
            assert(out@.map_values(|s: String| s@) =~= before.map_values(|s: String| s@).push(exe@));
            prefix = (if wv.len() > 0 { wv } else { seq!["wine"@] }) + seq![exe@];
            assert(before.map_values(|s: String| s@) == (if wv.len() > 0 { wv } else { seq!["wine"@] }));
        }
    }
    assert(out@.map_values(|s: String| s@) =~= prefix);
    let a = trim_str(args);
    if a.len() > 0 {
        let ghost before = out@;
        out.push(string_of(a.as_slice()));
        assert(out@.map_values(|s: String| s@) =~= before.map_values(|s: String| s@).push(trim(args@)));
    }
    out
}

// ---------------------------------------------------------------------------
// Client log files
// ---------------------------------------------------------------------------

/// A file found in Roblox's log directory: its name and modification time
/// (nanoseconds since the Unix epoch), `None` when it could not be read.
#[derive(Debug, Clone)]
pub struct LogFile {
    pub name: String,
    pub modified: Option<u64>,
}

/// Position of the last `.` in `s` before `j`.
pub open spec fn last_dot_before(s: Seq<char>, j: int) -> Option<int>
    decreases j,
{
    if j <= 0 {
        None
    } else if s[j - 1] == '.' {
        Some(j - 1)
    } else {
        last_dot_before(s, j - 1)
    }
}

/// A file name whose extension (after the last `.`, which must not be the
/// first character) is `log`, ignoring ASCII case.
pub open spec fn is_log_name(name: Seq<char>) -> bool {
    match last_dot_before(name, name.len() as int) {
        Some(p) => p > 0 && lower(name.skip(p + 1)) == "log"@,
        None => false,
    }
}

fn is_log_file(name: &str) -> (r: bool)
    ensures
        r == is_log_name(name@),
{
    let v = chars_of(name);
    let mut j: usize = v.len();
    while j > 0
        invariant
            j <= v@.len(),
            v@ == name@,
            last_dot_before(v@, v@.len() as int) == last_dot_before(v@, j as int),
        decreases j,
    {
        if v[j - 1] == '.' {
            let p = j - 1;
            if p == 0 {
                return false;
            }
            let ext = lower_vec(subvec(v.as_slice(), p + 1, v.len()).as_slice());
            assert(v@.subrange(p + 1, v@.len() as int) =~= v@.skip(p + 1));
            let is_log = ext.len() == 3 && ext[0] == 'l' && ext[1] == 'o' && ext[2] == 'g';
            proof {
                reveal_strlit("log");
                if is_log {
                    assert(ext@ =~= "log"@);
                }
            }
            return is_log;
        }
        j -= 1;
    }
    false
}

/// Scanning for the newest log from entry `i` with the newest so far
/// (time and position): an unreadable log time ends the scan with nothing;
/// a log replaces the newest only when strictly newer.
pub open spec fn latest_scan(es: Seq<LogFile>, i: int, best: Option<(u64, int)>) -> Option<int>
    decreases es.len() - i,
{
    if i < 0 || i >= es.len() {
        match best {
            Some(b) => Some(b.1),
            None => None,
        }
    } else if !is_log_name(es[i].name@) {
        latest_scan(es, i + 1, best)
    } else {
        match es[i].modified {
            None => None,
            Some(t) => if !(best matches Some(b) && t <= b.0) {
                latest_scan(es, i + 1, Some((t, i)))
            } else {
                latest_scan(es, i + 1, best)
            },
        }
    }
}

/// Position of the newest `.log` file among `entries`, or `None` when there
/// is none or a log's time could not be read.
pub fn find_latest_log(entries: &[LogFile]) -> (r: Option<usize>)
    ensures
        match latest_scan(entries@, 0, None) {
            Some(k) => r == Some(k as usize),
            None => r is None,
        },
{
    let mut best: Option<(u64, usize)> = None;
    let mut i: usize = 0;
    while i < entries.len()
        invariant
            i <= entries@.len(),
            latest_scan(entries@, 0, None) == latest_scan(
                entries@,
                i as int,
                match best {
                    Some(b) => Some((b.0, b.1 as int)),
                    None => None,
                },
            ),
            best matches Some(b) ==> b.1 < i,
        decreases entries.len() - i,
    {
        if is_log_file(entries[i].name.as_str()) {
            match entries[i].modified {
                None => return None,
                Some(t) => {
                    let replace = match best {
                        Some(b) => t > b.0,
                        None => true,
                    };
                    if replace {
                        best = Some((t, i));
                    }
                },
            }
        }
        i += 1;
    }
    match best {
        Some(b) => Some(b.1),
        None => None,
    }
}

/// The logs among `es` with a readable time.
pub open spec fn dated_log(e: LogFile) -> bool {
    is_log_name(e.name@) && e.modified is Some
}

/// How many dated logs come before entry `i` when sorted newest first
/// (ties keep their listing order).
pub open spec fn newer_count(es: Seq<LogFile>, i: int, n: int) -> int
    decreases n,
{
    if n <= 0 {
        0
    } else {
        let j = n - 1;
        newer_count(es, i, n - 1) + if dated_log(es[j]) && (es[j].modified->0 > es[i].modified->0
            || (es[j].modified->0 == es[i].modified->0 && j < i)) {
            1int
        } else {
            0int
        }
    }
}

/// Whether entry `i` is a dated log past the newest `keep`.
pub open spec fn is_stale_log(es: Seq<LogFile>, i: int, keep: nat) -> bool {
    dated_log(es[i]) && newer_count(es, i, es.len() as int) >= keep
}

/// The positions, in listing order, of the entries that are stale logs.
pub open spec fn stale_positions(es: Seq<LogFile>, keep: nat, n: int) -> Seq<usize>
    decreases n,
{
    if n <= 0 {
        Seq::empty()
    } else {
        let prev = stale_positions(es, keep, n - 1);
        if is_stale_log(es, n - 1, keep) {
            prev.push((n - 1) as usize)
        } else {
            prev
        }
    }
}

fn count_newer(entries: &[LogFile], dated: &Vec<bool>, i: usize) -> (r: usize)
    requires
        i < entries@.len(),
        dated@.len() == entries@.len(),
        forall|k: int| 0 <= k < entries@.len() ==> dated@[k] == dated_log(#[trigger] entries@[k]),
        dated_log(entries@[i as int]),
    ensures
        r == newer_count(entries@, i as int, entries@.len() as int),
{
    let ti = match entries[i].modified {
        Some(t) => t,
        None => 0,
    };
    let mut count: usize = 0;
    let mut j: usize = 0;
    while j < entries.len()
        invariant
            i < entries@.len(),
            j <= entries@.len(),
            dated@.len() == entries@.len(),
            forall|k: int| 0 <= k < entries@.len() ==> dated@[k] == dated_log(#[trigger] entries@[k]),
            entries@[i as int].modified == Some(ti),
            count == newer_count(entries@, i as int, j as int),
            count <= j,
        decreases entries.len() - j,
    {
        if dated[j] {
            let tj = match entries[j].modified {
                Some(t) => t,
                None => 0,
            };
            assert(entries@[j as int].modified == Some(tj));
            if tj > ti || (tj == ti && j < i) {
                count += 1;
            }
        }
        j += 1;
    }
    count
}

/// Positions of the `.log` files to delete so that only the newest `keep`
/// remain (logs whose time cannot be read are left alone).
pub fn stale_logs(entries: &[LogFile], keep: usize) -> (r: Vec<usize>)
    ensures
        r@ == stale_positions(entries@, keep as nat, entries@.len() as int),
{
    let mut dated: Vec<bool> = Vec::new();
    let mut k: usize = 0;
    while k < entries.len()
        invariant
            k <= entries@.len(),
            dated@.len() == k,
            forall|q: int| 0 <= q < k ==> dated@[q] == dated_log(#[trigger] entries@[q]),
        decreases entries.len() - k,
    {
        let d = is_log_file(entries[k].name.as_str()) && entries[k].modified.is_some();
        dated.push(d);
        k += 1;
    }
    let mut out: Vec<usize> = Vec::new();
    let mut i: usize = 0;
    while i < entries.len()
        invariant
            i <= entries@.len(),
            dated@.len() == entries@.len(),
            forall|q: int| 0 <= q < entries@.len() ==> dated@[q] == dated_log(#[trigger] entries@[q]),
            out@ == stale_positions(entries@, keep as nat, i as int),
        decreases entries.len() - i,
    {
        if dated[i] {
            let newer = count_newer(entries, &dated, i);
            if newer >= keep {
                out.push(i);
            }
        }
        i += 1;
    }
    out
}

} // verus!
