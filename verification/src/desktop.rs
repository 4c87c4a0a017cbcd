//! Logic of the settings application: its pages, the log viewer's
//! filtering, the release summary shown by the updater card, the tray's
//! actions, and the display metadata of the settings enums.

use vstd::prelude::*;

use crate::consts::{LAUNCHER_EXE_OTHER, LAUNCHER_EXE_WINDOWS, SETTINGS_EXE_OTHER, SETTINGS_EXE_WINDOWS};
use crate::logging::{last_n, LogLine};
use crate::settings::{CleanerMode, GpuPreference, MSAAMode, ProcessPriority, RenderingMode, UpdateChannel};
use crate::text::{
    chars_of, contains_sub, find_sub_exec, lower, lower_vec, parse_u64, parse_u64_exec, push_str,
    str_eq, str_to_string, string_of, trim, trim_str,
};
use crate::tail::{cut_chars, cut_to, cuttable, utf8_len};
use crate::updater::{asset_index_from, best_exe_from, release_version, Release};

verus! {

// ---------------------------------------------------------------------------
// Pages
// ---------------------------------------------------------------------------

/// The pages of the settings window.
#[derive(Debug, Clone, Copy, PartialEq, Eq, Structural)]
pub enum Page {
    Overview,
    Launch,
    Performance,
    Flags,
    Mods,
    Integrations,
    Shortcuts,
    Appearance,
    Logs,
    About,
}

/// The id a page is remembered by between sessions.
pub open spec fn page_id(p: Page) -> Seq<char> {
    match p {
        Page::Overview => "overview"@,
        Page::Launch => "launch"@,
        Page::Performance => "performance"@,
        Page::Flags => "flags"@,
        Page::Mods => "mods"@,
        Page::Integrations => "integrations"@,
        Page::Shortcuts => "shortcuts"@,
        Page::Appearance => "appearance"@,
        Page::Logs => "logs"@,
        Page::About => "about"@,
    }
}

/// The page remembered by `id`; an unknown id gives the overview.
pub open spec fn page_for_id(id: Seq<char>) -> Page {
    if id == "launch"@ {
        Page::Launch
    } else if id == "performance"@ {
        Page::Performance
    } else if id == "flags"@ {
        Page::Flags
    } else if id == "mods"@ {
        Page::Mods
    } else if id == "integrations"@ {
        Page::Integrations
    } else if id == "shortcuts"@ {
        Page::Shortcuts
    } else if id == "appearance"@ {
        Page::Appearance
    } else if id == "logs"@ {
        Page::Logs
    } else if id == "about"@ {
        Page::About
    } else {
        Page::Overview
    }
}

impl Page {
    /// All pages in sidebar order.
    pub fn all() -> (r: Vec<Page>)
        ensures
            r@ == seq![
                Page::Overview,
                Page::Launch,
                Page::Performance,
                Page::Flags,
                Page::Mods,
                Page::Integrations,
                Page::Shortcuts,
                Page::Appearance,
                Page::Logs,
                Page::About,
            ],
    {
        vec![
            Page::Overview,
            Page::Launch,
            Page::Performance,
            Page::Flags,
            Page::Mods,
            Page::Integrations,
            Page::Shortcuts,
            Page::Appearance,
            Page::Logs,
            Page::About,
        ]
    }

    /// Sidebar label.
    pub fn label(self) -> (r: &'static str)
        ensures
            r@ == match self {
                Page::Overview => "Overview"@,
                Page::Launch => "Launch"@,
                Page::Performance => "Performance"@,
                Page::Flags => "Fast Flags"@,
                Page::Mods => "Mods"@,
                Page::Integrations => "Integrations"@,
                Page::Shortcuts => "Shortcuts"@,
                Page::Appearance => "Appearance"@,
                Page::Logs => "Logs"@,
                Page::About => "About"@,
            },
    {
        match self {
            Page::Overview => "Overview",
            Page::Launch => "Launch",
            Page::Performance => "Performance",
            Page::Flags => "Fast Flags",
            Page::Mods => "Mods",
            Page::Integrations => "Integrations",
            Page::Shortcuts => "Shortcuts",
            Page::Appearance => "Appearance",
            Page::Logs => "Logs",
            Page::About => "About",
        }
    }

    /// The id the page is remembered by.
    pub fn id(self) -> (r: &'static str)
        ensures
            r@ == page_id(self),
    {
        match self {
            Page::Overview => "overview",
            Page::Launch => "launch",
            Page::Performance => "performance",
            Page::Flags => "flags",
            Page::Mods => "mods",
            Page::Integrations => "integrations",
            Page::Shortcuts => "shortcuts",
            Page::Appearance => "appearance",
            Page::Logs => "logs",
            Page::About => "about",
        }
    }

    /// The page remembered by `id` (the overview for an unknown id).
    pub fn from_id(id: &str) -> (r: Page)
        ensures
            r == page_for_id(id@),
    {
        if str_eq(id, "launch") {
            Page::Launch
        } else if str_eq(id, "performance") {
            Page::Performance
        } else if str_eq(id, "flags") {
            Page::Flags
        } else if str_eq(id, "mods") {
            Page::Mods
        } else if str_eq(id, "integrations") {
            Page::Integrations
        } else if str_eq(id, "shortcuts") {
            Page::Shortcuts
        } else if str_eq(id, "appearance") {
            Page::Appearance
        } else if str_eq(id, "logs") {
            Page::Logs
        } else if str_eq(id, "about") {
            Page::About
        } else {
            Page::Overview
        }
    }
}

/// Every page is found again from its id, so the remembered page survives
/// a restart.
pub proof fn law_page_id_roundtrip(p: Page)
    ensures
        page_for_id(page_id(p)) == p,
{
    reveal_strlit("overview");
    reveal_strlit("launch");
    reveal_strlit("performance");
    reveal_strlit("flags");
    reveal_strlit("mods");
    reveal_strlit("integrations");
    reveal_strlit("shortcuts");
    reveal_strlit("appearance");
    reveal_strlit("logs");
    reveal_strlit("about");
    assert("overview"@.len() == 8);
    assert("launch"@.len() == 6);
    assert("performance"@.len() == 11);
    assert("flags"@.len() == 5);
    assert("mods"@.len() == 4);
    assert("integrations"@.len() == 12);
    assert("shortcuts"@.len() == 9);
    assert("appearance"@.len() == 10);
    assert("logs"@.len() == 4);
    assert("about"@.len() == 5);
    assert("mods"@ != "logs"@) by {
        assert("mods"@[0] != "logs"@[0]);
    }
    assert("flags"@ != "about"@) by {
        assert("flags"@[0] != "about"@[0]);
    }
}

// ---------------------------------------------------------------------------
// Log viewer
// ---------------------------------------------------------------------------

/// Most lines the log viewer shows.
pub const LOG_VIEW_CAP: usize = 500;

/// A line passes the viewer's filters: its level is the selected one (or
/// "All" is selected), and the lower-cased query (when not empty) occurs in
/// its message or target, ignoring ASCII case.
pub open spec fn line_shown(l: LogLine, level: Seq<char>, query: Seq<char>) -> bool {
    (level == "All"@ || l.level@ == level) && (query.len() == 0 || contains_sub(
        lower(l.message@),
        query,
    ) || contains_sub(lower(l.target@), query))
}

/// The lines that pass the filters, in order.
pub open spec fn shown_lines(ls: Seq<LogLine>, level: Seq<char>, query: Seq<char>) -> Seq<LogLine>
    decreases ls.len(),
{
    if ls.len() == 0 {
        ls
    } else {
        let rest = shown_lines(ls.drop_last(), level, query);
        if line_shown(ls.last(), level, query) {
            rest.push(ls.last())
        } else {
            rest
        }
    }
}

/// A line as the viewer shows it: its level, and its message prefixed with
/// `[target] ` when it has a target.
pub open spec fn rendered_line(l: LogLine) -> (Seq<char>, Seq<char>) {
    (l.level@, if l.target@.len() == 0 { l.message@ } else { "["@ + l.target@ + "] "@ + l.message@ })
}

/// What the viewer shows: the newest 500 lines passing the filters, oldest
/// first, rendered.
pub open spec fn visible_spec(ls: Seq<LogLine>, level: Seq<char>, filter: Seq<char>) -> Seq<(Seq<char>, Seq<char>)> {
    last_n(shown_lines(ls, level, lower(trim(filter))), LOG_VIEW_CAP as nat).map_values(
        |l: LogLine| rendered_line(l),
    )
}

fn contains_lower(text: &str, query: &[char]) -> (r: bool)
    ensures
        r == contains_sub(lower(text@), query@),
{
    let l = lower_vec(chars_of(text).as_slice());
    find_sub_exec(l.as_slice(), query, 0).is_some()
}

/// The (level, text) pairs the log viewer shows for `lines` (oldest first)
/// under the selected level and search text.
pub fn visible_lines(lines: &[LogLine], level: &str, filter: &str) -> (r: Vec<(String, String)>)
    ensures
        r@.map_values(|p: (String, String)| (p.0@, p.1@)) == visible_spec(lines@, level@, filter@),
{
    let query = lower_vec(trim_str(filter).as_slice());
    let all = str_eq(level, "All");
    let mut shown: Vec<usize> = Vec::new();
    let ghost q = lower(trim(filter@));
    let ghost mut sv: Seq<LogLine> = Seq::empty();
    let mut i: usize = 0;
    while i < lines.len()
        invariant
            i <= lines@.len(),
            query@ == q,
            all == (level@ == "All"@),
            sv == shown_lines(lines@.take(i as int), level@, q),
            shown@.len() == sv.len(),
            forall|k: int| 0 <= k < shown@.len() ==> (#[trigger] shown@[k]) < lines@.len() && lines@[shown@[k] as int] == sv[k],
        decreases lines.len() - i,
    {
        let l = &lines[i];
        let level_ok = all || str_eq(l.level.as_str(), level);
        let text_ok = query.len() == 0 || contains_lower(l.message.as_str(), query.as_slice())
            || contains_lower(l.target.as_str(), query.as_slice());
        proof {
            assert(lines@.take(i + 1).drop_last() =~= lines@.take(i as int));
            assert(lines@.take(i + 1).last() == lines@[i as int]);
        }
        if level_ok && text_ok {
            let ghost old_shown = shown@;
            shown.push(i);
            proof {
                sv = sv.push(lines@[i as int]);
                assert forall|k: int| 0 <= k < shown@.len() implies (#[trigger] shown@[k]) < lines@.len()
                    && lines@[shown@[k] as int] == sv[k] by {
                    if k < old_shown.len() {
                        assert(shown@[k] == old_shown[k]);
                    }
                }
            }
        }
        i += 1;
    }
    assert(lines@.take(lines@.len() as int) =~= lines@);
    let n = shown.len();
    let start = if n > LOG_VIEW_CAP { n - LOG_VIEW_CAP } else { 0 };
    let ghost kept = last_n(sv, LOG_VIEW_CAP as nat);
    assert(kept =~= sv.subrange(start as int, n as int));
    let mut out: Vec<(String, String)> = Vec::new();
    let mut j: usize = start;
    while j < n
        invariant
            start <= j <= n,
            n == shown@.len(),
            n == sv.len(),
            kept == sv.subrange(start as int, n as int),
            forall|k: int| 0 <= k < shown@.len() ==> (#[trigger] shown@[k]) < lines@.len() && lines@[shown@[k] as int] == sv[k],
            out@.map_values(|p: (String, String)| (p.0@, p.1@)) == kept.take(j - start).map_values(
                |l: LogLine| rendered_line(l),
            ),
        decreases n - j,
    {
        let l = &lines[shown[j]];
        assert(*l == sv[j as int]);
        let text = if l.target.as_str().unicode_len() == 0 {
            str_to_string(l.message.as_str())
        } else {
            let mut t = str_to_string("[");
            push_str(&mut t, l.target.as_str());
            push_str(&mut t, "] ");
            push_str(&mut t, l.message.as_str());
            t
        };
        let ghost before = out@;
        out.push((str_to_string(l.level.as_str()), text));
        proof {
            assert(kept.take(j + 1 - start) =~= kept.take(j - start).push(sv[j as int]));
            assert(out@.map_values(|p: (String, String)| (p.0@, p.1@)) =~= before.map_values(
                |p: (String, String)| (p.0@, p.1@),
            ).push(rendered_line(sv[j as int])));
        }
        j += 1;
    }
    assert(kept.take(n - start) =~= kept);
    out
}

// ---------------------------------------------------------------------------
// Updates
// ---------------------------------------------------------------------------

/// Owned, UI-friendly release summary.
#[derive(Debug, Clone)]
pub struct ReleaseInfo {
    pub version: String,
    pub tag: String,
    pub prerelease: bool,
    pub launcher_url: String,
    pub settings_url: Option<String>,
}

/// The launcher asset of a release: the one named like the launcher
/// executable (ignoring case), else the preferred Windows executable.
pub open spec fn launcher_asset(r: Release, launcher: Seq<char>) -> Option<int> {
    match asset_index_from(r.assets@, launcher, 0) {
        Some(i) => Some(i),
        None => best_exe_from(r.assets@, 0, None),
    }
}

impl ReleaseInfo {
    /// Summarize a release for the given system; `None` when it carries no
    /// launcher (there is no update without one). The settings executable's
    /// URL is included when the release ships it.
    pub fn from_release(release: &Release, windows: bool) -> (r: Option<ReleaseInfo>)
        ensures
            ({
                let launcher = if windows { LAUNCHER_EXE_WINDOWS@ } else { LAUNCHER_EXE_OTHER@ };
                let settings = if windows { SETTINGS_EXE_WINDOWS@ } else { SETTINGS_EXE_OTHER@ };
                match launcher_asset(*release, launcher) {
                    None => r is None,
                    Some(i) => r matches Some(info) && {
                        &&& info.version@ == release_version(release.tag@)
                        &&& info.tag@ == release.tag@
                        &&& info.prerelease == release.prerelease
                        &&& info.launcher_url@ == release.assets@[i].download_url@
                        &&& match asset_index_from(release.assets@, settings, 0) {
                            Some(k) => info.settings_url matches Some(u) && u@
                                == release.assets@[k].download_url@,
                            None => info.settings_url is None,
                        }
                    },
                }
            }),
    {
        let launcher_name = if windows { LAUNCHER_EXE_WINDOWS } else { LAUNCHER_EXE_OTHER };
        let settings_name = if windows { SETTINGS_EXE_WINDOWS } else { SETTINGS_EXE_OTHER };
        let launcher = match release.asset_named(launcher_name) {
            Some(a) => a,
            None => match release.windows_exe() {
                Some(a) => a,
                None => return None,
            },
        };
        let settings_url = match release.asset_named(settings_name) {
            Some(a) => Some(str_to_string(a.download_url.as_str())),
            None => None,
        };
        Some(ReleaseInfo {
            version: str_to_string(release.version()),
            tag: str_to_string(release.tag.as_str()),
            prerelease: release.prerelease,
            launcher_url: str_to_string(launcher.download_url.as_str()),
            settings_url,
        })
    }
}

/// What the updater card shows after a check.
#[derive(Debug, Clone)]
pub enum UpdateOffer {
    /// No newer release.
    UpToDate,
    /// A newer release whose version the user chose to skip.
    Skipped(String),
    /// A newer release to offer.
    Available(ReleaseInfo),
}

/// The outcome of an update check: a found release whose version is the
/// skipped one is reported as skipped, any other is offered.
pub fn update_offer(found: Option<ReleaseInfo>, skipped_version: &str) -> (r: UpdateOffer)
    ensures
        match found {
            None => r is UpToDate,
            Some(info) => if info.version@ == skipped_version@ {
                r matches UpdateOffer::Skipped(v) && v@ == info.version@
            } else {
                r == UpdateOffer::Available(info)
            },
        },
{
    match found {
        None => UpdateOffer::UpToDate,
        Some(info) => {
            if str_eq(info.version.as_str(), skipped_version) {
                UpdateOffer::Skipped(info.version)
            } else {
                UpdateOffer::Available(info)
            }
        },
    }
}

/// Whether a fetched game preview is for the place id currently entered
/// (the entry trimmed and read as a number, 0 when it is none); an answer
/// for an earlier entry is stale.
pub fn preview_is_current(entered: &str, place_id: u64) -> (r: bool)
    ensures
        r == (match parse_u64(trim(entered@)) {
            Some(n) => n,
            None => 0,
        } == place_id),
{
    let t = trim_str(entered);
    let wanted = match parse_u64_exec(t.as_slice()) {
        Some(n) => n,
        None => 0,
    };
    wanted == place_id
}

/// A job id as the overview shows it: ids longer than 13 bytes become
/// their first 8 bytes and `...`.
pub fn short_job(job: &str) -> (r: String)
    requires
        utf8_len(job@) > 13 ==> cuttable(job@, 8),
    ensures
        r@ == if utf8_len(job@) > 13 {
            cut_to(job@, 8) + "..."@
        } else {
            job@
        },
{
    let v = chars_of(job);
    let (_, _, short) = cut_chars(v.as_slice(), 13);
    if short {
        return str_to_string(job);
    }
    let (head, _, _) = cut_chars(v.as_slice(), 8);
    let mut r = string_of(head.as_slice());
    push_str(&mut r, "...");
    r
}

/// Whether a server detail is worth a row: blank values, a bare `:` and
/// `0` are left out.
pub fn server_value_shown(value: &str) -> (r: bool)
    ensures
        r == !(trim(value@).len() == 0 || value@ == ":"@ || value@ == "0"@),
{
    !(trim_str(value).len() == 0 || str_eq(value, ":") || str_eq(value, "0"))
}

// ---------------------------------------------------------------------------
// Tray and settings enums
// ---------------------------------------------------------------------------

/// Actions requested through the tray.
#[derive(Debug, Clone, Copy, PartialEq, Eq, Structural)]
pub enum TrayAction {
    Show,
    LaunchPlayer,
    LaunchStudio,
    CheckUpdates,
    Quit,
}

/// Display metadata for a settings enum: its variants in display order and
/// each variant's label.
pub trait SettingOption: Sized {
    fn options() -> Vec<Self>;

    fn option_label(self) -> &'static str;
}

impl SettingOption for UpdateChannel {
    fn options() -> Vec<Self> {
        UpdateChannel::all()
    }

    fn option_label(self) -> &'static str {
        self.label()
    }
}

impl SettingOption for CleanerMode {
    fn options() -> Vec<Self> {
        CleanerMode::all()
    }

    fn option_label(self) -> &'static str {
        self.label()
    }
}

impl SettingOption for ProcessPriority {
    fn options() -> Vec<Self> {
        ProcessPriority::all()
    }

    fn option_label(self) -> &'static str {
        self.label()
    }
}

impl SettingOption for RenderingMode {
    fn options() -> Vec<Self> {
        RenderingMode::all()
    }

    fn option_label(self) -> &'static str {
        self.label()
    }
}

impl SettingOption for MSAAMode {
    fn options() -> Vec<Self> {
        MSAAMode::all()
    }

    fn option_label(self) -> &'static str {
        self.label()
    }
}

impl SettingOption for GpuPreference {
    fn options() -> Vec<Self> {
        GpuPreference::all()
    }

    fn option_label(self) -> &'static str {
        self.label()
    }
}

} // verus!
