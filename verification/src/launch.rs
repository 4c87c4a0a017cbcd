//! Launch decisions: argument splitting for integrations, how many client
//! instances to start, and whether the log watcher is needed.

use vstd::prelude::*;

use crate::roblox::LaunchMode;
use crate::settings::{CustomIntegration, ProcessPriority, Settings};
use crate::text::{dec, push_dec, push_str, str_to_string, trim, trim_str, string_of, is_ws, is_ws_exec, lemma_split_ws_len, nonempty_pieces, push_char, split_ws_raw, words};

verus! {

/// Tokenizer state while splitting an argument string.
pub struct ArgScan {
    pub done: Seq<Seq<char>>,
    pub current: Seq<char>,
    pub quoted: bool,
    pub has_token: bool,
}

/// One character of input: a quote toggles quoting and starts a token,
/// unquoted whitespace ends the token in progress, anything else is kept.
pub open spec fn arg_step(st: ArgScan, c: char) -> ArgScan {
    if c == '"' {
        ArgScan { quoted: !st.quoted, has_token: true, ..st }
    } else if is_ws(c) && !st.quoted {
        if st.has_token {
            ArgScan { done: st.done.push(st.current), current: Seq::empty(), has_token: false, ..st }
        } else {
            st
        }
    } else {
        ArgScan { current: st.current.push(c), has_token: true, ..st }
    }
}

pub open spec fn arg_scan(s: Seq<char>) -> ArgScan
    decreases s.len(),
{
    if s.len() == 0 {
        ArgScan { done: Seq::empty(), current: Seq::empty(), quoted: false, has_token: false }
    } else {
        arg_step(arg_scan(s.drop_last()), s.last())
    }
}

/// The arguments of a command-line string: whitespace separates them except
/// inside double quotes, which are dropped; `""` gives an empty argument.
pub open spec fn split_args_spec(s: Seq<char>) -> Seq<Seq<char>> {
    let st = arg_scan(s);
    if st.has_token {
        st.done.push(st.current)
    } else {
        st.done
    }
}

pub open spec fn strings_view(v: Seq<String>) -> Seq<Seq<char>> {
    v.map_values(|s: String| s@)
}

proof fn lemma_scan_unquoted(s: Seq<char>)
    requires
        !s.contains('"'),
    ensures
        !arg_scan(s).quoted,
        split_ws_raw(s).len() >= 1,
        arg_scan(s).current == split_ws_raw(s).last(),
        arg_scan(s).has_token == (arg_scan(s).current.len() > 0),
        arg_scan(s).done == nonempty_pieces(split_ws_raw(s).drop_last()),
    decreases s.len(),
{
    lemma_split_ws_len(s);
    if s.len() > 0 {
        let p = s.drop_last();
        assert(!p.contains('"')) by {
            if p.contains('"') {
                let k = choose|k: int| 0 <= k < p.len() && p[k] == '"';
                assert(s[k] == '"');
            }
        }
        lemma_scan_unquoted(p);
        lemma_split_ws_len(p);
        assert(s.last() != '"') by {
            assert(s[s.len() - 1] == s.last());
        }
        let raw = split_ws_raw(p);
        if is_ws(s.last()) {
            assert(split_ws_raw(s).drop_last() =~= raw);
            assert(raw =~= raw.drop_last().push(raw.last()));
        } else {
            assert(split_ws_raw(s).drop_last() =~= raw.drop_last());
        }
    }
}

/// Without quotes, splitting arguments is splitting at whitespace
/// (`split_whitespace`).
pub proof fn law_split_args_without_quotes(s: Seq<char>)
    requires
        !s.contains('"'),
    ensures
        split_args_spec(s) == words(s),
{
    lemma_scan_unquoted(s);
    let raw = split_ws_raw(s);
    assert(raw =~= raw.drop_last().push(raw.last()));
}

/// Split an argument string on whitespace, honouring double quotes.
pub fn split_args(input: &str) -> (r: Vec<String>)
    ensures
        strings_view(r@) == split_args_spec(input@),
{
    let mut out: Vec<String> = Vec::new();
    let mut current = String::new();
    let mut in_quotes = false;
    let mut has_token = false;
    let ghost mut seen: Seq<char> = Seq::empty();
    for c in it: input.chars()
        invariant
            seen == it.seq().take(it.index() as int),
            strings_view(out@) == arg_scan(seen).done,
            current@ == arg_scan(seen).current,
            in_quotes == arg_scan(seen).quoted,
            has_token == arg_scan(seen).has_token,
    {
        proof {
            assert(seen.push(c).drop_last() =~= seen);
        }
        if c == '"' {
            in_quotes = !in_quotes;
            has_token = true;
        } else if is_ws_exec(c) && !in_quotes {
            if has_token {
                let mut token = String::new();
                std::mem::swap(&mut token, &mut current);
                let ghost prev = out@;
                out.push(token);
                assert(strings_view(out@) =~= strings_view(prev).push(token@));
                has_token = false;
            }
        } else {
            push_char(&mut current, c);
            has_token = true;
        }
        proof {
            seen = seen.push(c);
        }
        assert(seen =~= it.seq().take(it.index() + 1));
    }
    assert(seen =~= input@);
    if has_token {
        let ghost prev = out@;
        out.push(current);
        assert(strings_view(out@) =~= strings_view(prev).push(arg_scan(seen).current));
    }
    out
}

// ---------------------------------------------------------------------------
// Launch plan
// ---------------------------------------------------------------------------

/// How many client instances a launch starts: several only for the player
/// with multi-instance launching on (at least one), else one.
pub open spec fn instance_count_spec(s: Settings, mode: LaunchMode) -> nat {
    if s.multi_instance_launching && mode is Player {
        if s.instances_count < 1 {
            1
        } else {
            s.instances_count as nat
        }
    } else {
        1
    }
}

pub fn instance_count(settings: &Settings, mode: LaunchMode) -> (r: u32)
    ensures
        r == instance_count_spec(*settings, mode),
{
    if settings.multi_instance_launching && !mode.is_studio() {
        if settings.instances_count < 1 {
            1
        } else {
            settings.instances_count
        }
    } else {
        1
    }
}

/// The log watcher runs only when a feature that reads the client log is on.
pub open spec fn watcher_needed_spec(s: Settings) -> bool {
    s.activity_tracking || s.playtime_counter || s.auto_rejoin || s.close_on_leave_game
        || s.show_server_details || (s.discord_rpc && trim(s.discord_client_id@).len() > 0)
}

pub fn watcher_needed(settings: &Settings) -> (r: bool)
    ensures
        r == watcher_needed_spec(*settings),
{
    settings.activity_tracking || settings.playtime_counter || settings.auto_rejoin
        || settings.close_on_leave_game || settings.show_server_details || (settings.discord_rpc
        && trim_str(settings.discord_client_id.as_str()).len() > 0)
}

/// The arguments the detached watcher is started with.
pub fn watcher_args(pid: u32, mode: LaunchMode) -> (r: Vec<String>)
    ensures
        r@.len() == 6,
        r@[0]@ == "--watcher"@,
        r@[1]@ == "--pid"@,
        r@[2]@ == dec(pid as nat),
        r@[3]@ == "--mode"@,
        r@[4]@ == match mode {
            LaunchMode::Player => "player"@,
            LaunchMode::Studio => "studio"@,
            LaunchMode::StudioAuth => "studio-auth"@,
        },
        r@[5]@ == "--quiet"@,
{
    let mut pid_text = String::new();
    push_dec(&mut pid_text, pid as u64);
    let mode_text = str_to_string(mode.as_str());
    vec![
        str_to_string("--watcher"),
        str_to_string("--pid"),
        pid_text,
        str_to_string("--mode"),
        mode_text,
        str_to_string("--quiet"),
    ]
}

/// Whether a launched client gets its priority changed.
pub fn wants_priority_change(settings: &Settings) -> (r: bool)
    ensures
        r == !(settings.process_priority is Normal),
{
    match settings.process_priority {
        ProcessPriority::Normal => false,
        _ => true,
    }
}

/// An integration program to start: the trimmed program path and its
/// arguments.
#[derive(Debug, Clone)]
pub struct IntegrationCommand {
    pub program: String,
    pub args: Vec<String>,
}

/// The integrations started with a launch, in order: the enabled ones
/// with a program, each with its argument string split (none when blank).
pub open spec fn integration_commands(v: Seq<CustomIntegration>) -> Seq<(Seq<char>, Seq<Seq<char>>)>
    decreases v.len(),
{
    if v.len() == 0 {
        Seq::empty()
    } else {
        let rest = integration_commands(v.drop_last());
        let i = v.last();
        if i.enabled && trim(i.exe@).len() > 0 {
            rest.push(
                (
                    trim(i.exe@),
                    if trim(i.args@).len() > 0 {
                        split_args_spec(trim(i.args@))
                    } else {
                        Seq::empty()
                    },
                ),
            )
        } else {
            rest
        }
    }
}

pub open spec fn commands_view(v: Seq<IntegrationCommand>) -> Seq<(Seq<char>, Seq<Seq<char>>)> {
    v.map_values(|c: IntegrationCommand| (c.program@, strings_view(c.args@)))
}

pub fn integrations_to_start(settings: &Settings) -> (r: Vec<IntegrationCommand>)
    ensures
        commands_view(r@) == integration_commands(settings.custom_integrations@),
{
    let v = settings.custom_integrations.as_slice();
    let mut out: Vec<IntegrationCommand> = Vec::new();
    let mut i: usize = 0;
    while i < v.len()
        invariant
            v@ == settings.custom_integrations@,
            i <= v@.len(),
            commands_view(out@) == integration_commands(v@.take(i as int)),
        decreases v.len() - i,
    {
        let item = &v[i];
        let exe = trim_str(item.exe.as_str());
        assert(v@.take(i + 1).drop_last() =~= v@.take(i as int));
        if item.enabled && exe.len() > 0 {
            let args_t = trim_str(item.args.as_str());
            let args = if args_t.len() > 0 {
                let joined = string_of(args_t.as_slice());
                split_args(joined.as_str())
            } else {
                Vec::new()
            };
            let cmd = IntegrationCommand { program: string_of(exe.as_slice()), args };
            let ghost prev = out@;
            out.push(cmd);
            assert(commands_view(out@) =~= commands_view(prev).push((cmd.program@, strings_view(cmd.args@))));
            assert(strings_view(cmd.args@) =~= (if trim(item.args@).len() > 0 {
                split_args_spec(trim(item.args@))
            } else {
                Seq::empty()
            }));
        }
        i += 1;
    }
    assert(v@.take(v@.len() as int) =~= v@);
    out
}

/// `Cleaned <n> file(s), <size>.`
pub fn cleaner_summary(files: u64, bytes: u64) -> (r: String)
    ensures
        r@ == "Cleaned "@ + dec(files as nat) + " file(s), "@ + crate::util::size_text(bytes as nat)
            + "."@,
{
    let mut s = String::new();
    push_str(&mut s, "Cleaned ");
    push_dec(&mut s, files);
    push_str(&mut s, " file(s), ");
    let size = crate::util::format_bytes(bytes);
    push_str(&mut s, size.as_str());
    push_str(&mut s, ".");
    s
}

} // verus!
