//! Install-location resolution and on-disk layout.
//!
//! Red Strap keeps everything (settings, states, downloads, versions, mods,
//! logs) under a single base directory:
//!
//! * Windows: `%LOCALAPPDATA%\RedStrap`
//! * Linux: `~/.local/share/redstrap` (or `$XDG_DATA_HOME/redstrap`)
//! * macOS: `~/Library/Application Support/RedStrap`
//!
//! Paths are held as text. A piece is joined to a directory with `/`, which
//! every supported system accepts as a separator; a piece that starts with
//! `/` is absolute and replaces the directory, as `Path::join` does.
//! Everything the layout depends on in the process environment is gathered
//! once into a [`HostEnv`].

use vstd::prelude::*;

use crate::cli::opt_view;
use crate::consts::{
    APP_ID, APP_NAME, CLIENT_SETTINGS_FILE, DIR_CACHE, DIR_CLIENT_SETTINGS, DIR_CURSOR_SETS,
    DIR_DOWNLOADS, DIR_FLAG_PROFILES, DIR_GAME_SHORTCUTS, DIR_INTEGRATIONS, DIR_LOGS,
    DIR_MODIFICATIONS, DIR_VERSIONS, LAUNCHER_EXE_OTHER, LAUNCHER_EXE_WINDOWS,
    PLAYER_STATE_FILE, SETTINGS_EXE_OTHER, SETTINGS_EXE_WINDOWS, SETTINGS_FILE,
    STATE_FILE, STATIC_VERSION_DIR, STUDIO_STATE_FILE,
};
use crate::roblox::LaunchMode;
use crate::text::{chars_of, push_char, push_chars, push_str, str_to_string, string_of};
use crate::util::{sanitize_filename, sanitized};

verus! {

// ---------------------------------------------------------------------------
// Joining
// ---------------------------------------------------------------------------

/// `base` joined with `piece`: an absolute piece replaces `base`; otherwise a
/// `/` goes between them unless `base` is empty or already ends with one.
pub open spec fn joined(base: Seq<char>, piece: Seq<char>) -> Seq<char> {
    if piece.len() > 0 && piece[0] == '/' {
        piece
    } else if base.len() > 0 && base.last() != '/' {
        base + seq!['/'] + piece
    } else {
        base + piece
    }
}

/// Join `piece` onto the directory `base`.
pub fn join_path(base: &str, piece: &str) -> (r: String)
    ensures
        r@ == joined(base@, piece@),
{
    let p = chars_of(piece);
    if p.len() > 0 && p[0] == '/' {
        return string_of(p.as_slice());
    }
    let b = chars_of(base);
    let mut s = string_of(b.as_slice());
    if b.len() > 0 && b[b.len() - 1] != '/' {
        push_char(&mut s, '/');
    }
    push_chars(&mut s, p.as_slice());
    s
}

// ---------------------------------------------------------------------------
// The host environment
// ---------------------------------------------------------------------------

/// The kind of system the application runs on.
#[derive(Debug, Clone, Copy, PartialEq, Eq, Structural)]
pub enum HostOs {
    Windows,
    MacOs,
    /// Any other Unix.
    Unix,
    /// None of the above.
    Other,
}

/// What the layout reads from the process environment: the system kind,
/// the relevant variables (absent when unset), and the temporary directory.
#[derive(Debug, Clone)]
pub struct HostEnv {
    pub os: HostOs,
    /// `USERPROFILE`.
    pub user_profile: Option<String>,
    /// `HOME`.
    pub home: Option<String>,
    /// `LOCALAPPDATA`.
    pub local_app_data: Option<String>,
    /// `APPDATA`.
    pub app_data: Option<String>,
    /// `XDG_DATA_HOME`.
    pub xdg_data_home: Option<String>,
    /// `XDG_CACHE_HOME`.
    pub xdg_cache_home: Option<String>,
    /// The system's temporary directory.
    pub temp_dir: String,
}

pub open spec fn map_join(dir: Option<Seq<char>>, piece: Seq<char>) -> Option<Seq<char>> {
    match dir {
        Some(d) => Some(joined(d, piece)),
        None => None,
    }
}

pub open spec fn or_else(a: Option<Seq<char>>, b: Option<Seq<char>>) -> Option<Seq<char>> {
    if a is Some {
        a
    } else {
        b
    }
}

fn map_join_exec(dir: &Option<String>, piece: &str) -> (r: Option<String>)
    ensures
        opt_view(r) == map_join(opt_view(*dir), piece@),
{
    match dir {
        Some(d) => Some(join_path(d.as_str(), piece)),
        None => None,
    }
}

fn clone_opt(o: &Option<String>) -> (r: Option<String>)
    ensures
        opt_view(r) == opt_view(*o),
{
    match o {
        Some(s) => Some(str_to_string(s.as_str())),
        None => None,
    }
}

/// The user's home directory: `USERPROFILE` (then `HOME`) on Windows,
/// `HOME` elsewhere.
pub open spec fn home_dir_spec(env: HostEnv) -> Option<Seq<char>> {
    if env.os == HostOs::Windows {
        or_else(opt_view(env.user_profile), opt_view(env.home))
    } else {
        opt_view(env.home)
    }
}

/// Current user's home directory.
pub fn home_dir(env: &HostEnv) -> (r: Option<String>)
    ensures
        opt_view(r) == home_dir_spec(*env),
{
    if env.os == HostOs::Windows && env.user_profile.is_some() {
        clone_opt(&env.user_profile)
    } else {
        clone_opt(&env.home)
    }
}

/// Per-user local application data: `LOCALAPPDATA` on Windows,
/// `~/Library/Application Support` on macOS, `XDG_DATA_HOME` or
/// `~/.local/share` on other Unix systems, none elsewhere.
pub open spec fn local_app_data_spec(env: HostEnv) -> Option<Seq<char>> {
    match env.os {
        HostOs::Windows => opt_view(env.local_app_data),
        HostOs::MacOs => map_join(home_dir_spec(env), "Library/Application Support"@),
        HostOs::Unix => or_else(
            opt_view(env.xdg_data_home),
            map_join(home_dir_spec(env), ".local/share"@),
        ),
        HostOs::Other => None,
    }
}

/// Per-user local (non-roaming) application data directory.
pub fn local_app_data(env: &HostEnv) -> (r: Option<String>)
    ensures
        opt_view(r) == local_app_data_spec(*env),
{
    match env.os {
        HostOs::Windows => clone_opt(&env.local_app_data),
        HostOs::MacOs => map_join_exec(&home_dir(env), "Library/Application Support"),
        HostOs::Unix => {
            if env.xdg_data_home.is_some() {
                clone_opt(&env.xdg_data_home)
            } else {
                map_join_exec(&home_dir(env), ".local/share")
            }
        },
        HostOs::Other => None,
    }
}

/// Per-user cache directory: `LOCALAPPDATA` on Windows, `~/Library/Caches`
/// on macOS, `XDG_CACHE_HOME` or `~/.cache` on other Unix systems.
pub open spec fn cache_dir_spec(env: HostEnv) -> Option<Seq<char>> {
    match env.os {
        HostOs::Windows => opt_view(env.local_app_data),
        HostOs::MacOs => map_join(home_dir_spec(env), "Library/Caches"@),
        HostOs::Unix => or_else(
            opt_view(env.xdg_cache_home),
            map_join(home_dir_spec(env), ".cache"@),
        ),
        HostOs::Other => None,
    }
}

/// Per-user cache directory.
pub fn cache_dir(env: &HostEnv) -> (r: Option<String>)
    ensures
        opt_view(r) == cache_dir_spec(*env),
{
    match env.os {
        HostOs::Windows => clone_opt(&env.local_app_data),
        HostOs::MacOs => map_join_exec(&home_dir(env), "Library/Caches"),
        HostOs::Unix => {
            if env.xdg_cache_home.is_some() {
                clone_opt(&env.xdg_cache_home)
            } else {
                map_join_exec(&home_dir(env), ".cache")
            }
        },
        HostOs::Other => None,
    }
}

/// The user's desktop directory, `Desktop` under the home directory
/// (given whether or not it exists yet).
pub fn desktop_dir(env: &HostEnv) -> (r: Option<String>)
    ensures
        opt_view(r) == map_join(home_dir_spec(*env), "Desktop"@),
{
    map_join_exec(&home_dir(env), "Desktop")
}

/// The Windows Start Menu `Programs` directory; none on other systems.
pub open spec fn start_menu_spec(env: HostEnv) -> Option<Seq<char>> {
    if env.os == HostOs::Windows {
        map_join(opt_view(env.app_data), "Microsoft/Windows/Start Menu/Programs"@)
    } else {
        None
    }
}

/// Windows Start Menu `Programs` directory. Always `None` on other systems.
pub fn start_menu_programs_dir(env: &HostEnv) -> (r: Option<String>)
    ensures
        opt_view(r) == start_menu_spec(*env),
{
    if env.os == HostOs::Windows {
        map_join_exec(&env.app_data, "Microsoft/Windows/Start Menu/Programs")
    } else {
        None
    }
}

/// `.redstrap`, the fallback directory name when no data directory is known.
pub open spec fn dot_app_id() -> Seq<char> {
    seq!['.'] + APP_ID@
}

/// The platform default base directory: the application's folder under the
/// local application data directory (`RedStrap` on Windows, `redstrap`
/// elsewhere), else `.redstrap` under the home directory, else `.redstrap`.
pub open spec fn default_base_dir_spec(env: HostEnv) -> Seq<char> {
    let name = if env.os == HostOs::Windows { APP_NAME@ } else { APP_ID@ };
    match local_app_data_spec(env) {
        Some(d) => joined(d, name),
        None => match home_dir_spec(env) {
            Some(h) => joined(h, dot_app_id()),
            None => dot_app_id(),
        },
    }
}

fn dot_app_id_exec() -> (r: String)
    ensures
        r@ == dot_app_id(),
{
    let mut s = String::new();
    push_char(&mut s, '.');
    push_str(&mut s, APP_ID);
    s
}

/// Platform default base directory.
pub fn default_base_dir(env: &HostEnv) -> (r: String)
    ensures
        r@ == default_base_dir_spec(*env),
{
    let name = if env.os == HostOs::Windows { APP_NAME } else { APP_ID };
    match local_app_data(env) {
        Some(d) => join_path(d.as_str(), name),
        None => {
            let dot = dot_app_id_exec();
            match home_dir(env) {
                Some(h) => join_path(h.as_str(), dot.as_str()),
                None => dot,
            }
        },
    }
}

/// Roblox's data directory: `Roblox` under the local application data
/// directory on Windows; `.redstrap-roblox` under the home directory
/// elsewhere (a Wine-prefix-relative stand-in); the bare name when neither
/// directory is known.
pub open spec fn roblox_data_dir_spec(env: HostEnv) -> Seq<char> {
    if env.os == HostOs::Windows {
        match local_app_data_spec(env) {
            Some(d) => joined(d, "Roblox"@),
            None => "Roblox"@,
        }
    } else {
        match home_dir_spec(env) {
            Some(h) => joined(h, ".redstrap-roblox"@),
            None => ".redstrap-roblox"@,
        }
    }
}

/// Roblox's own data directory.
pub fn roblox_data_dir(env: &HostEnv) -> (r: String)
    ensures
        r@ == roblox_data_dir_spec(*env),
{
    if env.os == HostOs::Windows {
        match local_app_data(env) {
            Some(d) => join_path(d.as_str(), "Roblox"),
            None => str_to_string("Roblox"),
        }
    } else {
        match home_dir(env) {
            Some(h) => join_path(h.as_str(), ".redstrap-roblox"),
            None => str_to_string(".redstrap-roblox"),
        }
    }
}

/// The install location, in priority order: a non-empty `REDSTRAP_HOME`
/// override; the executable's own directory when it holds the install
/// marker; the directory the uninstall record names, when it holds the
/// marker (Windows); the platform default.
pub open spec fn resolved_base_dir(
    home_override: Option<Seq<char>>,
    exe_dir_marked: Option<Seq<char>>,
    recorded_dir_marked: Option<Seq<char>>,
    env: HostEnv,
) -> Seq<char> {
    match home_override {
        Some(h) if h.len() > 0 => h,
        _ => match exe_dir_marked {
            Some(d) => d,
            None => match recorded_dir_marked {
                Some(d) if env.os == HostOs::Windows => d,
                _ => default_base_dir_spec(env),
            },
        },
    }
}

/// Best-effort install-location resolution. The caller passes the
/// `REDSTRAP_HOME` value, and the executable's directory and the recorded
/// install directory only where the install marker was found in them.
pub fn resolve_base_dir(
    home_override: Option<String>,
    exe_dir_marked: Option<String>,
    recorded_dir_marked: Option<String>,
    env: &HostEnv,
) -> (r: String)
    ensures
        r@ == resolved_base_dir(
            opt_view(home_override),
            opt_view(exe_dir_marked),
            opt_view(recorded_dir_marked),
            *env,
        ),
{
    if let Some(h) = home_override {
        if h.as_str().unicode_len() > 0 {
            return h;
        }
    }
    if let Some(d) = exe_dir_marked {
        return d;
    }
    if env.os == HostOs::Windows {
        if let Some(d) = recorded_dir_marked {
            return d;
        }
    }
    default_base_dir(env)
}

// ---------------------------------------------------------------------------
// The layout
// ---------------------------------------------------------------------------

/// File name of the launcher executable on the given system.
pub open spec fn launcher_exe(os: HostOs) -> Seq<char> {
    if os == HostOs::Windows { LAUNCHER_EXE_WINDOWS@ } else { LAUNCHER_EXE_OTHER@ }
}

/// File name of the settings executable on the given system.
pub open spec fn settings_exe(os: HostOs) -> Seq<char> {
    if os == HostOs::Windows { SETTINGS_EXE_WINDOWS@ } else { SETTINGS_EXE_OTHER@ }
}

/// Fully-resolved directory layout.
#[derive(Debug, Clone)]
pub struct Layout {
    pub base: String,
    pub downloads: String,
    pub cache: String,
    pub logs: String,
    pub integrations: String,
    pub versions: String,
    pub modifications: String,
    pub preset_modifications: String,
    pub flag_profiles: String,
    pub client_settings: String,
    pub cursor_sets: String,
    pub game_shortcuts: String,
    /// Roblox's own data directory.
    pub roblox: String,
    pub roblox_logs: String,
    pub roblox_temp: String,
    /// Expected location of this application's executable once installed.
    pub application: String,
    pub settings_file: String,
    pub state_file: String,
    pub player_state_file: String,
    pub studio_state_file: String,
    pub working_flags_file: String,
    /// Whether the layout was made for Windows (executable names differ).
    pub windows: bool,
}

/// The layout rooted at `base` in the environment `env`.
pub open spec fn layout_spec(base: Seq<char>, env: HostEnv, l: Layout) -> bool {
    let roblox = roblox_data_dir_spec(env);
    &&& l.base@ == base
    &&& l.downloads@ == joined(base, DIR_DOWNLOADS@)
    &&& l.cache@ == joined(base, DIR_CACHE@)
    &&& l.logs@ == joined(base, DIR_LOGS@)
    &&& l.integrations@ == joined(base, DIR_INTEGRATIONS@)
    &&& l.versions@ == joined(base, DIR_VERSIONS@)
    &&& l.modifications@ == joined(base, DIR_MODIFICATIONS@)
    &&& l.preset_modifications@ == joined(
        joined(base, DIR_MODIFICATIONS@),
        "Preset Modifications"@,
    )
    &&& l.flag_profiles@ == joined(base, DIR_FLAG_PROFILES@)
    &&& l.client_settings@ == joined(base, DIR_CLIENT_SETTINGS@)
    &&& l.cursor_sets@ == joined(base, DIR_CURSOR_SETS@)
    &&& l.game_shortcuts@ == joined(joined(base, DIR_CACHE@), DIR_GAME_SHORTCUTS@)
    &&& l.roblox@ == roblox
    &&& l.roblox_logs@ == joined(roblox, "logs"@)
    &&& l.roblox_temp@ == joined(env.temp_dir@, "Roblox"@)
    &&& l.application@ == joined(base, launcher_exe(env.os))
    &&& l.settings_file@ == joined(base, SETTINGS_FILE@)
    &&& l.state_file@ == joined(base, STATE_FILE@)
    &&& l.player_state_file@ == joined(base, PLAYER_STATE_FILE@)
    &&& l.studio_state_file@ == joined(base, STUDIO_STATE_FILE@)
    &&& l.working_flags_file@ == joined(
        joined(base, DIR_CLIENT_SETTINGS@),
        CLIENT_SETTINGS_FILE@,
    )
    &&& l.windows == (env.os == HostOs::Windows)
}

impl Layout {
    pub fn new(base: &str, env: &HostEnv) -> (l: Layout)
        ensures
            layout_spec(base@, *env, l),
    {
        let windows = env.os == HostOs::Windows;
        let exe_name = if windows { LAUNCHER_EXE_WINDOWS } else { LAUNCHER_EXE_OTHER };
        let roblox = roblox_data_dir(env);
        let client_settings = join_path(base, DIR_CLIENT_SETTINGS);
        let modifications = join_path(base, DIR_MODIFICATIONS);
        let cache = join_path(base, DIR_CACHE);
        Layout {
            base: str_to_string(base),
            downloads: join_path(base, DIR_DOWNLOADS),
            logs: join_path(base, DIR_LOGS),
            integrations: join_path(base, DIR_INTEGRATIONS),
            versions: join_path(base, DIR_VERSIONS),
            preset_modifications: join_path(modifications.as_str(), "Preset Modifications"),
            modifications,
            flag_profiles: join_path(base, DIR_FLAG_PROFILES),
            working_flags_file: join_path(client_settings.as_str(), CLIENT_SETTINGS_FILE),
            client_settings,
            cursor_sets: join_path(base, DIR_CURSOR_SETS),
            game_shortcuts: join_path(cache.as_str(), DIR_GAME_SHORTCUTS),
            cache,
            roblox_logs: join_path(roblox.as_str(), "logs"),
            roblox_temp: join_path(env.temp_dir.as_str(), "Roblox"),
            roblox,
            application: join_path(base, exe_name),
            settings_file: join_path(base, SETTINGS_FILE),
            state_file: join_path(base, STATE_FILE),
            player_state_file: join_path(base, PLAYER_STATE_FILE),
            studio_state_file: join_path(base, STUDIO_STATE_FILE),
            windows,
        }
    }

    /// Installed location of the settings UI executable.
    pub fn settings_app(&self) -> (r: String)
        ensures
            r@ == joined(
                self.base@,
                if self.windows { SETTINGS_EXE_WINDOWS@ } else { SETTINGS_EXE_OTHER@ },
            ),
    {
        let name = if self.windows { SETTINGS_EXE_WINDOWS } else { SETTINGS_EXE_OTHER };
        join_path(self.base.as_str(), name)
    }

    /// The distribution state file of the given app.
    pub fn dist_state_path(&self, mode: LaunchMode) -> (r: String)
        ensures
            r@ == if mode is Player { self.player_state_file@ } else { self.studio_state_file@ },
    {
        if mode.is_studio() {
            str_to_string(self.studio_state_file.as_str())
        } else {
            str_to_string(self.player_state_file.as_str())
        }
    }
}

/// The version directory of a launch: the fixed `Roblox` directory when the
/// static directory is enabled, else the version's own directory.
pub open spec fn version_dir_spec(versions: Seq<char>, guid: Seq<char>, static_dir: bool) -> Seq<char> {
    joined(versions, if static_dir { STATIC_VERSION_DIR@ } else { guid })
}

/// Resolve the version directory and executable for a launch.
pub fn version_paths(
    layout: &Layout,
    mode: LaunchMode,
    version_guid: &str,
    static_dir: bool,
) -> (r: (String, String))
    ensures
        r.0@ == version_dir_spec(layout.versions@, version_guid@, static_dir),
        r.1@ == joined(r.0@, if mode is Player { crate::consts::ROBLOX_PLAYER_EXE@ } else {
            crate::consts::ROBLOX_STUDIO_EXE@
        }),
{
    let piece = if static_dir { STATIC_VERSION_DIR } else { version_guid };
    let version_dir = join_path(layout.versions.as_str(), piece);
    let exe = join_path(version_dir.as_str(), mode.exe_name());
    (version_dir, exe)
}

/// The file of the flag profile called `name` in `dir`: the sanitized name
/// with `.json` appended.
pub fn profile_path(dir: &str, name: &str) -> (r: String)
    ensures
        r@ == joined(dir@, sanitized(name@) + ".json"@),
{
    let mut file = sanitize_filename(name);
    push_str(&mut file, ".json");
    join_path(dir, file.as_str())
}

} // verus!
