//! Application-wide constants for Red Strap.
//!
//! Keeping these in one place makes rebranding, endpoint changes, and
//! tuning trivial, and avoids magic strings scattered through the code.

use vstd::prelude::*;

verus! {

/// Human-readable application name shown in the UI, window titles, and logs.
pub const APP_NAME: &'static str = "RedStrap";

/// Lowercase identifier used for file names, mutex names, and directories.
pub const APP_ID: &'static str = "redstrap";

/// Current settings/state schema version. Bumped when a migration is needed.
pub const SCHEMA_VERSION: u32 = 1;

/// GitHub repository (`owner/name`) used by the self-updater by default.
pub const DEFAULT_UPDATE_REPO: &'static str = "realkyx29-design/Redstrap-TEST-";

/// File name of the Roblox player executable.
pub const ROBLOX_PLAYER_EXE: &'static str = "RobloxPlayerBeta.exe";

/// File name of the Roblox Studio executable.
pub const ROBLOX_STUDIO_EXE: &'static str = "RobloxStudioBeta.exe";

/// Default Roblox web domain (without scheme).
pub const DEFAULT_ROBLOX_DOMAIN: &'static str = "roblox.com";

/// Default Roblox release channel.
pub const DEFAULT_CHANNEL: &'static str = "production";

/// Fast-flag allowlist application identifier of the player.
pub const ALLOWLIST_APP_PLAYER: &'static str = "PCDesktopClient";

/// Fast-flag allowlist application identifier of Studio.
pub const ALLOWLIST_APP_STUDIO: &'static str = "PCStudioClient";

/// Alias that also means the default channel.
pub const LIVE_CHANNEL_ALIAS: &'static str = "live";

/// Client-settings binary type identifier of the player.
pub const BINARY_TYPE_PLAYER: &'static str = "WindowsPlayer";

/// Client-settings binary type identifier of Studio.
pub const BINARY_TYPE_STUDIO: &'static str = "WindowsStudio64";

/// In-memory cap for the recent-log ring buffer shown in the UI.
pub const LOG_RING_CAPACITY: usize = 500;

/// Upper bound for automatic server rejoins in a single watcher session.
pub const MAX_AUTO_REJOINS: u32 = 5;

/// Delay before an automatic rejoin is attempted, in seconds.
pub const AUTO_REJOIN_DELAY_SECS: u64 = 3;

/// File name of the launcher executable on Windows.
pub const LAUNCHER_EXE_WINDOWS: &'static str = "RedStrap.exe";

/// File name of the launcher executable elsewhere.
pub const LAUNCHER_EXE_OTHER: &'static str = "RedStrap";

/// File name of the settings executable on Windows.
pub const SETTINGS_EXE_WINDOWS: &'static str = "RedStrap-Settings.exe";

/// File name of the settings executable elsewhere.
pub const SETTINGS_EXE_OTHER: &'static str = "RedStrap-Settings";

/// Persisted file names, relative to the base directory.
pub const SETTINGS_FILE: &'static str = "Settings.json";

pub const STATE_FILE: &'static str = "State.json";

pub const PLAYER_STATE_FILE: &'static str = "PlayerState.json";

pub const STUDIO_STATE_FILE: &'static str = "StudioState.json";

/// Fast-flag file name, both in the working copy and in a version directory.
pub const CLIENT_SETTINGS_FILE: &'static str = "ClientAppSettings.json";

/// Directory names relative to the base directory.
pub const DIR_DOWNLOADS: &'static str = "Downloads";

pub const DIR_CACHE: &'static str = "Cache";

pub const DIR_LOGS: &'static str = "Logs";

pub const DIR_VERSIONS: &'static str = "Versions";

pub const DIR_MODIFICATIONS: &'static str = "Modifications";

pub const DIR_FLAG_PROFILES: &'static str = "FlagProfiles";

pub const DIR_CLIENT_SETTINGS: &'static str = "ClientSettings";

pub const DIR_CURSOR_SETS: &'static str = "CursorSets";

pub const DIR_GAME_SHORTCUTS: &'static str = "GameShortcuts";

pub const DIR_INTEGRATIONS: &'static str = "Integrations";

/// Directory name used when "static install directory" is enabled.
pub const STATIC_VERSION_DIR: &'static str = "Roblox";

/// Name of the marker file that identifies an install directory.
pub const INSTALL_MARKER: &'static str = SETTINGS_FILE;

/// Maximum number of package downloads running concurrently.
pub const DOWNLOAD_CONCURRENCY: usize = 4;

/// Maximum number of package extractions running concurrently.
pub const EXTRACT_CONCURRENCY: usize = 4;

} // verus!
