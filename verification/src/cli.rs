//! The bootstrapper's command line: which flow a set of arguments selects,
//! the prompts' answers, and the decisions of the silent self-update.

use std::cmp::Ordering;

use vstd::prelude::*;

use crate::error::RedStrapError;
use crate::roblox::{
    classify_protocol_arg, gameshortcut_spec, launch_mode_from_text, parse_gameshortcut,
    protocol_mode, LaunchMode,
};
use crate::settings::UpdateChannel;
use crate::text::{
    chars_of, chars_eq_str, ends_with, ends_with_str, find_char, find_char_exec, lower, lower_vec,
    push_str, starts_with, starts_with_str, str_to_string, string_of, subvec, trim, trim_vec,
};
use crate::updater::{release_version, Release};
use crate::version::version_order;

verus! {

/// The bootstrapper's command-line arguments.
#[derive(Debug, Clone)]
pub struct CliArgs {
    /// Protocol URI (`roblox://...`) or `version-<hash>` pin to launch.
    pub target: Option<String>,
    pub player: bool,
    pub studio: bool,
    pub settings: bool,
    pub install: bool,
    pub uninstall: bool,
    pub yes: bool,
    pub watcher: bool,
    pub pid: Option<u32>,
    pub mode: Option<String>,
    pub launch_args: Option<String>,
    pub gameshortcut: Option<String>,
    pub version_guid: Option<String>,
    pub sync_roblox: bool,
    pub background_updater: bool,
    pub updated: bool,
    pub quiet: bool,
    pub verbose: bool,
}

/// The flow a command line selects.
#[derive(Debug, Clone)]
pub enum Command {
    /// Attach the activity watcher to a running client.
    Watch { pid: u32, mode: LaunchMode },
    /// Remove Red Strap; `confirmed` skips the prompt.
    Uninstall { confirmed: bool },
    /// Silent self-update check.
    BackgroundUpdate,
    /// Install or repair Red Strap.
    Install,
    /// First start after a self-update.
    Updated,
    /// Open the settings window.
    OpenSettings,
    /// Install or update Roblox without launching it.
    SyncRoblox { mode: LaunchMode, version: Option<String> },
    /// Launch Roblox.
    Launch { mode: LaunchMode, args: String, version: Option<String> },
    /// No arguments: install when needed, then open the settings window.
    Default,
}

pub open spec fn opt_view(o: Option<String>) -> Option<Seq<char>> {
    match o {
        Some(s) => Some(s@),
        None => None,
    }
}

/// The mode named on the command line (the player when none is named).
pub open spec fn mode_arg(text: Option<Seq<char>>) -> Option<LaunchMode> {
    match text {
        None => Some(LaunchMode::Player),
        Some(t) => launch_mode_from_text(t),
    }
}

fn unknown_mode(t: &str) -> (r: RedStrapError)
    ensures
        r matches RedStrapError::Other(m) && m@ == "unknown mode '"@ + t@
            + "' (expected 'player' or 'studio')"@,
{
    let mut m = str_to_string("unknown mode '");
    push_str(&mut m, t);
    push_str(&mut m, "' (expected 'player' or 'studio')");
    RedStrapError::Other(m)
}

/// Parse `--mode`; the player when absent.
pub fn parse_mode(text: Option<&str>) -> (r: Result<LaunchMode, RedStrapError>)
    ensures
        match text {
            None => r == Ok::<LaunchMode, RedStrapError>(LaunchMode::Player),
            Some(t) => match launch_mode_from_text(t@) {
                Some(m) => r == Ok::<LaunchMode, RedStrapError>(m),
                None => r matches Err(RedStrapError::Other(msg)) && msg@ == "unknown mode '"@ + t@
                    + "' (expected 'player' or 'studio')"@,
            },
        },
{
    match text {
        None => Ok(LaunchMode::Player),
        Some(t) => match LaunchMode::parse(t) {
            Some(m) => Ok(m),
            None => Err(unknown_mode(t)),
        },
    }
}

/// The abstract content of a [`Command`].
pub enum CommandView {
    Watch { pid: u32, mode: LaunchMode },
    Uninstall { confirmed: bool },
    BackgroundUpdate,
    Install,
    Updated,
    OpenSettings,
    SyncRoblox { mode: LaunchMode, version: Option<Seq<char>> },
    Launch { mode: LaunchMode, args: Seq<char>, version: Option<Seq<char>> },
    Default,
}

pub open spec fn command_view(c: Command) -> CommandView {
    match c {
        Command::Watch { pid, mode } => CommandView::Watch { pid, mode },
        Command::Uninstall { confirmed } => CommandView::Uninstall { confirmed },
        Command::BackgroundUpdate => CommandView::BackgroundUpdate,
        Command::Install => CommandView::Install,
        Command::Updated => CommandView::Updated,
        Command::OpenSettings => CommandView::OpenSettings,
        Command::SyncRoblox { mode, version } => CommandView::SyncRoblox {
            mode,
            version: opt_view(version),
        },
        Command::Launch { mode, args, version } => CommandView::Launch {
            mode,
            args: args@,
            version: opt_view(version),
        },
        Command::Default => CommandView::Default,
    }
}

pub open spec fn unknown_mode_text(t: Seq<char>) -> Seq<char> {
    "unknown mode '"@ + t + "' (expected 'player' or 'studio')"@
}

/// What a command line selects, checked in order: the watcher, uninstall,
/// the background updater, install, the post-update start, settings, a
/// Roblox sync, a game shortcut, a launch target, `--player`/`--studio`,
/// and otherwise the default flow. An error is the message of the failure.
/// `interactive` tells whether standard input is a terminal.
pub open spec fn planned(cli: CliArgs, interactive: bool) -> Result<CommandView, Seq<char>> {
    let version = opt_view(cli.version_guid);
    let args = match cli.launch_args {
        Some(a) => a@,
        None => Seq::empty(),
    };
    if cli.watcher {
        match cli.pid {
            None => Err("--watcher requires --pid <PID>"@),
            Some(pid) => match mode_arg(opt_view(cli.mode)) {
                Some(mode) => Ok(CommandView::Watch { pid, mode }),
                None => Err(unknown_mode_text(cli.mode->0@)),
            },
        }
    } else if cli.uninstall {
        Ok(CommandView::Uninstall { confirmed: cli.yes || !interactive })
    } else if cli.background_updater {
        Ok(CommandView::BackgroundUpdate)
    } else if cli.install {
        Ok(CommandView::Install)
    } else if cli.updated {
        Ok(CommandView::Updated)
    } else if cli.settings {
        Ok(CommandView::OpenSettings)
    } else if cli.sync_roblox {
        match mode_arg(opt_view(cli.mode)) {
            Some(mode) => Ok(CommandView::SyncRoblox { mode, version }),
            None => Err(unknown_mode_text(cli.mode->0@)),
        }
    } else if cli.gameshortcut is Some {
        let data = cli.gameshortcut->0@;
        match gameshortcut_spec(data) {
            Some(link) => Ok(CommandView::Launch { mode: LaunchMode::Player, args: link, version }),
            None => Err("could not parse --gameshortcut '"@ + data
                + "' (expected placeId[;jobId[;accessCode]])"@),
        }
    } else if cli.target is Some {
        let t = cli.target->0@;
        match protocol_mode(t) {
            Some(mode) => Ok(CommandView::Launch { mode, args: t, version }),
            None => if starts_with(t, "version-"@) {
                Ok(CommandView::Launch { mode: LaunchMode::Player, args, version: Some(t) })
            } else {
                Err("unrecognised launch target '"@ + t
                    + "' (expected roblox://... or version-<hash>)"@)
            },
        }
    } else if cli.player || cli.studio {
        Ok(
            CommandView::Launch {
                mode: if cli.studio {
                    LaunchMode::Studio
                } else {
                    LaunchMode::Player
                },
                args,
                version,
            },
        )
    } else {
        Ok(CommandView::Default)
    }
}

fn clone_opt(o: &Option<String>) -> (r: Option<String>)
    ensures
        opt_view(r) == opt_view(*o),
{
    match o {
        Some(s) => Some(s.clone()),
        None => None,
    }
}

fn message_error(parts: &[&str]) -> (r: RedStrapError)
    ensures
        r matches RedStrapError::Other(m) && m@ == concat_views(parts@),
{
    let mut m = String::new();
    let mut i: usize = 0;
    while i < parts.len()
        invariant
            i <= parts@.len(),
            m@ == concat_views(parts@.take(i as int)),
        decreases parts.len() - i,
    {
        push_str(&mut m, parts[i]);
        assert(parts@.take(i + 1).drop_last() =~= parts@.take(i as int));
        i += 1;
    }
    assert(parts@.take(parts@.len() as int) =~= parts@);
    RedStrapError::Other(m)
}

pub open spec fn concat_views(parts: Seq<&str>) -> Seq<char>
    decreases parts.len(),
{
    if parts.len() == 0 {
        Seq::empty()
    } else {
        concat_views(parts.drop_last()) + parts.last()@
    }
}

/// Choose the flow for a command line.
pub fn plan_command(cli: &CliArgs, interactive: bool) -> (r: Result<Command, RedStrapError>)
    ensures
        match planned(*cli, interactive) {
            Ok(c) => r is Ok && command_view(r->Ok_0) == c,
            Err(msg) => r matches Err(RedStrapError::Other(m)) && m@ == msg,
        },
{
    let version = clone_opt(&cli.version_guid);
    let args = match &cli.launch_args {
        Some(a) => a.clone(),
        None => String::new(),
    };
    if cli.watcher {
        let pid = match cli.pid {
            Some(p) => p,
            None => return Err(RedStrapError::Other(str_to_string("--watcher requires --pid <PID>"))),
        };
        let mode = match &cli.mode {
            Some(t) => parse_mode(Some(t.as_str())),
            None => parse_mode(None),
        };
        return match mode {
            Ok(mode) => Ok(Command::Watch { pid, mode }),
            Err(e) => Err(e),
        };
    }
    if cli.uninstall {
        return Ok(Command::Uninstall { confirmed: cli.yes || !interactive });
    }
    if cli.background_updater {
        return Ok(Command::BackgroundUpdate);
    }
    if cli.install {
        return Ok(Command::Install);
    }
    if cli.updated {
        return Ok(Command::Updated);
    }
    if cli.settings {
        return Ok(Command::OpenSettings);
    }
    if cli.sync_roblox {
        let mode = match &cli.mode {
            Some(t) => parse_mode(Some(t.as_str())),
            None => parse_mode(None),
        };
        return match mode {
            Ok(mode) => Ok(Command::SyncRoblox { mode, version }),
            Err(e) => Err(e),
        };
    }
    match &cli.gameshortcut {
        Some(data) => {
            return match parse_gameshortcut(data.as_str()) {
                Some(link) => Ok(Command::Launch { mode: LaunchMode::Player, args: link, version }),
                None => {
                    let parts = [
                        "could not parse --gameshortcut '",
                        data.as_str(),
                        "' (expected placeId[;jobId[;accessCode]])",
                    ];
                    let e = message_error(&parts);
                    proof {
                        assert(concat_views(parts@) =~= "could not parse --gameshortcut '"@
                            + data@ + "' (expected placeId[;jobId[;accessCode]])"@) by {
                            reveal_with_fuel(concat_views, 4);
                        }
                    }
                    Err(e)
                },
            };
        },
        None => {},
    }
    match &cli.target {
        Some(target) => {
            match classify_protocol_arg(target.as_str()) {
                Some(mode) => {
                    return Ok(Command::Launch { mode, args: target.clone(), version });
                },
                None => {},
            }
            let t = chars_of(target.as_str());
            if starts_with_str(t.as_slice(), "version-") {
                return Ok(
                    Command::Launch { mode: LaunchMode::Player, args, version: Some(target.clone()) },
                );
            }
            let parts = [
                "unrecognised launch target '",
                target.as_str(),
                "' (expected roblox://... or version-<hash>)",
            ];
            let e = message_error(&parts);
            proof {
                assert(concat_views(parts@) =~= "unrecognised launch target '"@ + target@
                    + "' (expected roblox://... or version-<hash>)"@) by {
                    reveal_with_fuel(concat_views, 4);
                }
            }
            return Err(e);
        },
        None => {},
    }
    if cli.player || cli.studio {
        let mode = if cli.studio {
            LaunchMode::Studio
        } else {
            LaunchMode::Player
        };
        return Ok(Command::Launch { mode, args, version });
    }
    Ok(Command::Default)
}

// ---------------------------------------------------------------------------
// Prompts
// ---------------------------------------------------------------------------

/// A prompt answer that means yes: empty, `y` or `yes`, in any case,
/// around whitespace.
pub open spec fn affirmative(line: Seq<char>) -> bool {
    let a = lower(trim(line));
    a.len() == 0 || a == "y"@ || a == "yes"@
}

pub fn is_affirmative(line: &str) -> (r: bool)
    ensures
        r == affirmative(line@),
{
    let t = trim_vec(chars_of(line).as_slice());
    let a = lower_vec(t.as_slice());
    a.len() == 0 || chars_eq_str(a.as_slice(), "y") || chars_eq_str(a.as_slice(), "yes")
}

// ---------------------------------------------------------------------------
// Silent self-update
// ---------------------------------------------------------------------------

/// `owner/repo` split at the first slash; both sides must be non-empty
/// before trimming, and are trimmed.
pub open spec fn update_repo_parts(repo: Seq<char>) -> Option<(Seq<char>, Seq<char>)> {
    match find_char(repo, '/') {
        None => None,
        Some(i) => if i == 0 || i + 1 == repo.len() {
            None
        } else {
            Some((trim(repo.take(i)), trim(repo.skip(i + 1))))
        },
    }
}

pub fn parse_update_repo(repo: &str) -> (r: Option<(String, String)>)
    ensures
        match update_repo_parts(repo@) {
            Some((o, n)) => r matches Some(p) && p.0@ == o && p.1@ == n,
            None => r is None,
        },
{
    let v = chars_of(repo);
    match find_char_exec(v.as_slice(), '/', 0) {
        None => None,
        Some(i) => {
            proof {
                crate::text::lemma_find_char_from(v@, '/', 0);
            }
            if i == 0 || i + 1 == v.len() {
                return None;
            }
            let owner = subvec(v.as_slice(), 0, i);
            let name = subvec(v.as_slice(), i + 1, v.len());
            assert(owner@ =~= repo@.take(i as int));
            assert(name@ =~= repo@.skip(i + 1));
            let o = trim_vec(owner.as_slice());
            let n = trim_vec(name.as_slice());
            Some((string_of(o.as_slice()), string_of(n.as_slice())))
        },
    }
}

/// Index of the first release the channel takes, among releases listed
/// newest first: any release for `Both`, a pre-release for `PreRelease`.
pub open spec fn first_wanted_from(releases: Seq<Release>, both: bool, i: int) -> Option<int>
    decreases releases.len() - i,
{
    if i < 0 || i >= releases.len() {
        None
    } else if both || releases[i].prerelease {
        Some(i)
    } else {
        first_wanted_from(releases, both, i + 1)
    }
}

/// The release a pre-release channel installs from a listing.
pub fn pick_listed_release(releases: &[Release], channel: UpdateChannel) -> (r: Option<usize>)
    ensures
        r matches Some(k) ==> first_wanted_from(releases@, channel is Both, 0) == Some(k as int),
        r is None ==> first_wanted_from(releases@, channel is Both, 0) is None,
{
    let both = match channel {
        UpdateChannel::Both => true,
        _ => false,
    };
    let mut i: usize = 0;
    while i < releases.len()
        invariant
            i <= releases@.len(),
            both == (channel is Both),
            first_wanted_from(releases@, both, 0) == first_wanted_from(releases@, both, i as int),
        decreases releases.len() - i,
    {
        if both || releases[i].prerelease {
            return Some(i);
        }
        i += 1;
    }
    None
}

/// What the silent updater does with a release.
#[derive(Debug, Clone, Copy, PartialEq, Eq)]
pub enum UpdateDecision {
    /// The running version is current.
    UpToDate,
    /// A newer version exists but background updates are off.
    Announce,
    /// Download and stage the newer version.
    Install,
}

pub open spec fn update_decision_spec(current: Seq<char>, tag: Seq<char>, background: bool) -> UpdateDecision {
    if version_order(current, release_version(tag)) != Ordering::Less {
        UpdateDecision::UpToDate
    } else if !background {
        UpdateDecision::Announce
    } else {
        UpdateDecision::Install
    }
}

pub fn update_decision(current: &str, release: &Release, background_updates: bool) -> (r: UpdateDecision)
    ensures
        r == update_decision_spec(current@, release.tag@, background_updates),
{
    if !crate::updater::is_newer(current, release.version()) {
        UpdateDecision::UpToDate
    } else if !background_updates {
        UpdateDecision::Announce
    } else {
        UpdateDecision::Install
    }
}

} // verus!
