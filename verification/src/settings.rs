//! Persisted user settings (`Settings.json`): the enums, custom
//! integrations, and the settings record with its repair rules.
//!
//! Every enum lists its variants in display order and carries the label
//! the settings UI shows for it. Every setting maps to real behaviour.

use vstd::prelude::*;

use crate::consts::{DEFAULT_CHANNEL, DEFAULT_ROBLOX_DOMAIN, DEFAULT_UPDATE_REPO, SCHEMA_VERSION};
use crate::fastflags::{
    apply_alt_enter_fix, apply_dpi_scaling, apply_fps_cap, apply_frm_quality, apply_gray_sky,
    apply_low_poly_meshes, apply_msaa, apply_pause_voxelizer, apply_remove_grass,
    apply_rendering_mode, apply_texture_quality, low_poly_meshes_model, remove_grass_model,
    rendering_mode_model, texture_quality_model, FlagStore,
};
use crate::flagmodel::{fps_cap_value, level_value, model_set_preset, true_or_none, FlagModel};
use crate::text::{is_ws, lemma_trim_fixed, lemma_trim_idempotent, lemma_trim_ends, str_to_string, string_of, trim, trim_str};

verus! {

/// Which releases the self-updater considers.
#[derive(Debug, Clone, Copy, PartialEq, Eq, Default)]
pub enum UpdateChannel {
    Disabled,
    #[default]
    Stable,
    PreRelease,
    Both,
}

/// When the bundled cleaner removes Roblox temp/cache/log files.
#[derive(Debug, Clone, Copy, PartialEq, Eq, Default)]
pub enum CleanerMode {
    #[default]
    Never,
    OnLaunch,
    OnClose,
}

/// OS process priority applied to Roblox after launch.
#[derive(Debug, Clone, Copy, PartialEq, Eq, Default)]
pub enum ProcessPriority {
    Low,
    BelowNormal,
    #[default]
    Normal,
    AboveNormal,
    High,
    RealTime,
}

/// Rendering backend forced through fast flags.
#[derive(Debug, Clone, Copy, PartialEq, Eq, Default)]
pub enum RenderingMode {
    #[default]
    Default,
    Vulkan,
    OpenGL,
    D3D11,
}

/// Forced MSAA sample count.
#[derive(Debug, Clone, Copy, PartialEq, Eq, Default)]
pub enum MSAAMode {
    #[default]
    Default,
    X1,
    X2,
    X4,
}

/// GPU preference written to the Windows graphics settings registry.
#[derive(Debug, Clone, Copy, PartialEq, Eq, Default)]
pub enum GpuPreference {
    #[default]
    System,
    Integrated,
    HighPerformance,
}

impl UpdateChannel {
    /// All variants in display order.
    pub fn all() -> (r: Vec<UpdateChannel>)
        ensures
            r@ == seq![
                UpdateChannel::Disabled,
                UpdateChannel::Stable,
                UpdateChannel::PreRelease,
                UpdateChannel::Both,
            ],
    {
        vec![
            UpdateChannel::Disabled,
            UpdateChannel::Stable,
            UpdateChannel::PreRelease,
            UpdateChannel::Both,
        ]
    }

    /// Human-readable label for the settings UI.
    pub fn label(self) -> (r: &'static str)
        ensures
            r@ == match self {
                UpdateChannel::Disabled => "Disabled"@,
                UpdateChannel::Stable => "Stable releases"@,
                UpdateChannel::PreRelease => "Pre-releases"@,
                UpdateChannel::Both => "Both"@,
            },
    {
        match self {
            UpdateChannel::Disabled => "Disabled",
            UpdateChannel::Stable => "Stable releases",
            UpdateChannel::PreRelease => "Pre-releases",
            UpdateChannel::Both => "Both",
        }
    }
}

impl CleanerMode {
    /// All variants in display order.
    pub fn all() -> (r: Vec<CleanerMode>)
        ensures
            r@ == seq![CleanerMode::Never, CleanerMode::OnLaunch, CleanerMode::OnClose],
    {
        vec![CleanerMode::Never, CleanerMode::OnLaunch, CleanerMode::OnClose]
    }

    /// Human-readable label for the settings UI.
    pub fn label(self) -> (r: &'static str)
        ensures
            r@ == match self {
                CleanerMode::Never => "Never"@,
                CleanerMode::OnLaunch => "When Roblox launches"@,
                CleanerMode::OnClose => "When Roblox closes"@,
            },
    {
        match self {
            CleanerMode::Never => "Never",
            CleanerMode::OnLaunch => "When Roblox launches",
            CleanerMode::OnClose => "When Roblox closes",
        }
    }
}

impl ProcessPriority {
    /// All variants in display order.
    pub fn all() -> (r: Vec<ProcessPriority>)
        ensures
            r@ == seq![
                ProcessPriority::Low,
                ProcessPriority::BelowNormal,
                ProcessPriority::Normal,
                ProcessPriority::AboveNormal,
                ProcessPriority::High,
                ProcessPriority::RealTime,
            ],
    {
        vec![
            ProcessPriority::Low,
            ProcessPriority::BelowNormal,
            ProcessPriority::Normal,
            ProcessPriority::AboveNormal,
            ProcessPriority::High,
            ProcessPriority::RealTime,
        ]
    }

    /// Human-readable label for the settings UI.
    pub fn label(self) -> (r: &'static str)
        ensures
            r@ == match self {
                ProcessPriority::Low => "Low"@,
                ProcessPriority::BelowNormal => "Below normal"@,
                ProcessPriority::Normal => "Normal"@,
                ProcessPriority::AboveNormal => "Above normal"@,
                ProcessPriority::High => "High"@,
                ProcessPriority::RealTime => "Real time"@,
            },
    {
        match self {
            ProcessPriority::Low => "Low",
            ProcessPriority::BelowNormal => "Below normal",
            ProcessPriority::Normal => "Normal",
            ProcessPriority::AboveNormal => "Above normal",
            ProcessPriority::High => "High",
            ProcessPriority::RealTime => "Real time",
        }
    }
}

impl RenderingMode {
    /// All variants in display order.
    pub fn all() -> (r: Vec<RenderingMode>)
        ensures
            r@ == seq![
                RenderingMode::Default,
                RenderingMode::Vulkan,
                RenderingMode::OpenGL,
                RenderingMode::D3D11,
            ],
    {
        vec![RenderingMode::Default, RenderingMode::Vulkan, RenderingMode::OpenGL, RenderingMode::D3D11]
    }

    /// Human-readable label for the settings UI.
    pub fn label(self) -> (r: &'static str)
        ensures
            r@ == match self {
                RenderingMode::Default => "Default (DirectX 11)"@,
                RenderingMode::Vulkan => "Vulkan"@,
                RenderingMode::OpenGL => "OpenGL"@,
                RenderingMode::D3D11 => "DirectX 11 (forced)"@,
            },
    {
        match self {
            RenderingMode::Default => "Default (DirectX 11)",
            RenderingMode::Vulkan => "Vulkan",
            RenderingMode::OpenGL => "OpenGL",
            RenderingMode::D3D11 => "DirectX 11 (forced)",
        }
    }
}

impl MSAAMode {
    /// All variants in display order.
    pub fn all() -> (r: Vec<MSAAMode>)
        ensures
            r@ == seq![MSAAMode::Default, MSAAMode::X1, MSAAMode::X2, MSAAMode::X4],
    {
        vec![MSAAMode::Default, MSAAMode::X1, MSAAMode::X2, MSAAMode::X4]
    }

    /// Human-readable label for the settings UI.
    pub fn label(self) -> (r: &'static str)
        ensures
            r@ == match self {
                MSAAMode::Default => "Default"@,
                MSAAMode::X1 => "1x"@,
                MSAAMode::X2 => "2x"@,
                MSAAMode::X4 => "4x"@,
            },
    {
        match self {
            MSAAMode::Default => "Default",
            MSAAMode::X1 => "1x",
            MSAAMode::X2 => "2x",
            MSAAMode::X4 => "4x",
        }
    }

    /// Fast-flag value, or `None` when the flag should be removed.
    pub fn flag_value(self) -> (r: Option<&'static str>)
        ensures
            match r {
                Some(s) => msaa_flag_value(self) == Some(s@),
                None => msaa_flag_value(self) is None,
            },
    {
        match self {
            MSAAMode::Default => None,
            MSAAMode::X1 => Some("1"),
            MSAAMode::X2 => Some("2"),
            MSAAMode::X4 => Some("4"),
        }
    }
}

/// Flag value for each MSAA mode.
pub open spec fn msaa_flag_value(mode: MSAAMode) -> Option<Seq<char>> {
    match mode {
        MSAAMode::Default => None,
        MSAAMode::X1 => Some("1"@),
        MSAAMode::X2 => Some("2"@),
        MSAAMode::X4 => Some("4"@),
    }
}

impl GpuPreference {
    /// All variants in display order.
    pub fn all() -> (r: Vec<GpuPreference>)
        ensures
            r@ == seq![
                GpuPreference::System,
                GpuPreference::Integrated,
                GpuPreference::HighPerformance,
            ],
    {
        vec![GpuPreference::System, GpuPreference::Integrated, GpuPreference::HighPerformance]
    }

    /// Human-readable label for the settings UI.
    pub fn label(self) -> (r: &'static str)
        ensures
            r@ == match self {
                GpuPreference::System => "Let Windows decide"@,
                GpuPreference::Integrated => "Power saving (integrated)"@,
                GpuPreference::HighPerformance => "High performance (discrete)"@,
            },
    {
        match self {
            GpuPreference::System => "Let Windows decide",
            GpuPreference::Integrated => "Power saving (integrated)",
            GpuPreference::HighPerformance => "High performance (discrete)",
        }
    }
}

// ---------------------------------------------------------------------------
// Custom integrations
// ---------------------------------------------------------------------------

/// An external program launched alongside Roblox (e.g. overlays, tools).
#[derive(Debug, Clone, PartialEq, Eq)]
pub struct CustomIntegration {
    pub name: String,
    pub exe: String,
    pub args: String,
    pub enabled: bool,
}

/// Name given to an integration that does not name itself.
pub fn default_integration_name() -> (r: String)
    ensures
        r@ == "Custom tool"@,
{
    str_to_string("Custom tool")
}

impl CustomIntegration {
    /// The integration the editor starts from.
    pub fn new() -> (r: CustomIntegration)
        ensures
            r.name@ == "Custom tool"@,
            r.exe@ == Seq::<char>::empty(),
            r.args@ == Seq::<char>::empty(),
            r.enabled,
    {
        CustomIntegration {
            name: default_integration_name(),
            exe: String::new(),
            args: String::new(),
            enabled: true,
        }
    }
}

impl Default for CustomIntegration {
    fn default() -> (r: CustomIntegration)
        ensures
            r.name@ == "Custom tool"@,
            r.exe@ == Seq::<char>::empty(),
            r.args@ == Seq::<char>::empty(),
            r.enabled,
    {
        CustomIntegration::new()
    }
}

impl CustomIntegration {
    /// Field-by-field copy whose result is known to equal the original.
    pub fn copy(&self) -> (r: CustomIntegration)
        ensures
            r == *self,
    {
        CustomIntegration {
            name: self.name.clone(),
            exe: self.exe.clone(),
            args: self.args.clone(),
            enabled: self.enabled,
        }
    }
}

// ---------------------------------------------------------------------------
// Settings
// ---------------------------------------------------------------------------

/// `1.0f32` as bits: the default interface scale.
pub const UI_SCALE_DEFAULT_BITS: u32 = 0x3F80_0000;
/// `0.5f32` as bits: the smallest interface scale kept.
pub const UI_SCALE_MIN_BITS: u32 = 0x3F00_0000;
/// `3.0f32` as bits: the largest interface scale kept.
pub const UI_SCALE_MAX_BITS: u32 = 0x4040_0000;

/// Complete user configuration.
///
/// The interface scale is an `f32`; it is held here as its IEEE-754 bit
/// pattern (`f32::to_bits`). Finite non-negative floats order like their
/// bit patterns, so "a finite number from 0.5 to 3.0" is the bit range
/// from `UI_SCALE_MIN_BITS` to `UI_SCALE_MAX_BITS`.
#[derive(Debug, Clone)]
pub struct Settings {
    pub schema_version: u32,

    // Updates
    pub update_check: UpdateChannel,
    pub background_updates: bool,
    pub update_repo: String,

    // Launching
    pub confirm_launches: bool,
    pub multi_instance_launching: bool,
    pub instances_count: u32,
    pub instance_delay_ms: u64,
    pub process_priority: ProcessPriority,
    pub auto_close_crash_handler: bool,
    pub cleaner: CleanerMode,
    pub cleaner_extra_dirs: Vec<String>,

    // Roblox deployment
    pub channel: String,
    pub channel_token: String,
    pub roblox_domain: String,
    pub auto_update_roblox: bool,
    pub static_directory: bool,
    /// Custom launcher prefix for non-Windows systems, e.g. `wine`.
    /// Empty means "execute the Roblox binary directly".
    pub custom_launch_command: String,

    // Fast flags
    pub use_flag_manager: bool,
    pub alt_enter_fix: bool,

    // Performance (each maps to real flags / registry values)
    /// 0 disables the cap, otherwise target frames per second.
    pub fps_cap: u32,
    pub rendering_mode: RenderingMode,
    pub msaa: MSAAMode,
    /// 0 disables the override, otherwise FRM quality level 1-21.
    pub frm_quality: u8,
    /// 0 disables the override, otherwise texture quality level.
    pub texture_quality: u8,
    pub low_poly_meshes: bool,
    pub remove_grass: bool,
    pub pause_voxelizer: bool,
    pub disable_dpi_scaling: bool,
    pub gray_sky: bool,
    pub gpu_preference: GpuPreference,
    pub disable_fullscreen_optimizations: bool,

    // Roblox client settings file (GlobalBasicSettings). `None` = untouched.
    pub gbs_framerate_cap: Option<i32>,
    /// Maps to `RenderSettings.VSyncDisabled`.
    pub disable_vsync: bool,

    // Integrations
    pub activity_tracking: bool,
    pub discord_rpc: bool,
    /// Discord application ID. Empty disables rich presence.
    pub discord_client_id: String,
    pub rpc_hide_buttons: bool,
    pub rpc_show_game_name: bool,
    pub rpc_show_account: bool,
    pub playtime_counter: bool,
    pub auto_rejoin: bool,
    pub show_server_details: bool,
    pub close_on_leave_game: bool,
    pub custom_integrations: Vec<CustomIntegration>,

    // Mods
    pub last_recolor: String,

    // Shortcuts (managed: UI toggles create/delete the shortcut files)
    pub shortcut_desktop: bool,
    pub shortcut_start_menu: bool,
    pub shortcut_player: bool,
    pub shortcut_studio: bool,
    pub shortcut_settings: bool,

    // Appearance
    pub custom_font_path: String,
    /// Interface scale, as the bits of an `f32`.
    pub ui_scale_bits: u32,
    pub minimize_to_tray: bool,

    // Diagnostics
    pub verbose_logging: bool,
}

/// The fields that hold no repair rule are the same in both settings.
pub open spec fn same_plain_fields(a: Settings, b: Settings) -> bool {
    &&& b.update_check == a.update_check
    &&& b.background_updates == a.background_updates
    &&& b.confirm_launches == a.confirm_launches
    &&& b.multi_instance_launching == a.multi_instance_launching
    &&& b.process_priority == a.process_priority
    &&& b.auto_close_crash_handler == a.auto_close_crash_handler
    &&& b.cleaner == a.cleaner
    &&& b.channel_token == a.channel_token
    &&& b.auto_update_roblox == a.auto_update_roblox
    &&& b.static_directory == a.static_directory
    &&& b.use_flag_manager == a.use_flag_manager
    &&& b.alt_enter_fix == a.alt_enter_fix
    &&& b.rendering_mode == a.rendering_mode
    &&& b.msaa == a.msaa
    &&& b.low_poly_meshes == a.low_poly_meshes
    &&& b.remove_grass == a.remove_grass
    &&& b.pause_voxelizer == a.pause_voxelizer
    &&& b.disable_dpi_scaling == a.disable_dpi_scaling
    &&& b.gray_sky == a.gray_sky
    &&& b.gpu_preference == a.gpu_preference
    &&& b.disable_fullscreen_optimizations == a.disable_fullscreen_optimizations
    &&& b.disable_vsync == a.disable_vsync
    &&& b.activity_tracking == a.activity_tracking
    &&& b.discord_rpc == a.discord_rpc
    &&& b.rpc_hide_buttons == a.rpc_hide_buttons
    &&& b.rpc_show_game_name == a.rpc_show_game_name
    &&& b.rpc_show_account == a.rpc_show_account
    &&& b.playtime_counter == a.playtime_counter
    &&& b.auto_rejoin == a.auto_rejoin
    &&& b.show_server_details == a.show_server_details
    &&& b.close_on_leave_game == a.close_on_leave_game
    &&& b.last_recolor == a.last_recolor
    &&& b.shortcut_desktop == a.shortcut_desktop
    &&& b.shortcut_start_menu == a.shortcut_start_menu
    &&& b.shortcut_player == a.shortcut_player
    &&& b.shortcut_studio == a.shortcut_studio
    &&& b.shortcut_settings == a.shortcut_settings
    &&& b.minimize_to_tray == a.minimize_to_tray
    &&& b.verbose_logging == a.verbose_logging
}

/// The trimmed text, or `dflt` when nothing is left.
pub open spec fn trimmed_or(s: Seq<char>, dflt: Seq<char>) -> Seq<char> {
    if trim(s).len() == 0 {
        dflt
    } else {
        trim(s)
    }
}

pub open spec fn clamp_int(x: int, lo: int, hi: int) -> int {
    if x < lo {
        lo
    } else if x > hi {
        hi
    } else {
        x
    }
}

/// A bit pattern of a finite `f32` from 0.5 to 3.0.
pub open spec fn ui_scale_ok(bits: u32) -> bool {
    UI_SCALE_MIN_BITS <= bits <= UI_SCALE_MAX_BITS
}

/// Integrations with a name or a program, in order.
pub open spec fn kept_integrations(v: Seq<CustomIntegration>) -> Seq<CustomIntegration>
    decreases v.len(),
{
    if v.len() == 0 {
        v
    } else {
        let rest = kept_integrations(v.drop_last());
        let i = v.last();
        if trim(i.name@).len() > 0 || trim(i.exe@).len() > 0 {
            rest.push(i)
        } else {
            rest
        }
    }
}

/// Extra cleaner directories that are not blank, in order.
pub open spec fn kept_dirs(v: Seq<String>) -> Seq<String>
    decreases v.len(),
{
    if v.len() == 0 {
        v
    } else {
        let rest = kept_dirs(v.drop_last());
        if trim(v.last()@).len() > 0 {
            rest.push(v.last())
        } else {
            rest
        }
    }
}

/// What `Settings::validate` makes of `a`: numbers clamped into range, an
/// unusable interface scale reset to 1.0, text fields trimmed (the channel,
/// domain and update repository falling back to their defaults when
/// blank), and blank integrations and cleaner directories dropped.
pub open spec fn validated(a: Settings, b: Settings) -> bool {
    &&& same_plain_fields(a, b)
    &&& b.schema_version == (if a.schema_version == 0 {
        SCHEMA_VERSION
    } else {
        a.schema_version
    })
    &&& b.instances_count == clamp_int(a.instances_count as int, 1, 8)
    &&& b.instance_delay_ms == clamp_int(a.instance_delay_ms as int, 0, 30000)
    &&& b.fps_cap == clamp_int(a.fps_cap as int, 0, 1000)
    &&& b.frm_quality == clamp_int(a.frm_quality as int, 0, 21)
    &&& b.texture_quality == clamp_int(a.texture_quality as int, 0, 4)
    &&& b.ui_scale_bits == (if ui_scale_ok(a.ui_scale_bits) {
        a.ui_scale_bits
    } else {
        UI_SCALE_DEFAULT_BITS
    })
    &&& b.channel@ == trimmed_or(a.channel@, DEFAULT_CHANNEL@)
    &&& b.roblox_domain@ == trimmed_or(a.roblox_domain@, DEFAULT_ROBLOX_DOMAIN@)
    &&& b.update_repo@ == trimmed_or(a.update_repo@, DEFAULT_UPDATE_REPO@)
    &&& b.custom_launch_command@ == trim(a.custom_launch_command@)
    &&& b.discord_client_id@ == trim(a.discord_client_id@)
    &&& b.custom_font_path@ == trim(a.custom_font_path@)
    &&& b.gbs_framerate_cap == match a.gbs_framerate_cap {
        Some(c) => Some(clamp_int(c as int, 1, 1000) as i32),
        None => None,
    }
    &&& b.custom_integrations@ == kept_integrations(a.custom_integrations@)
    &&& b.cleaner_extra_dirs@ == kept_dirs(a.cleaner_extra_dirs@)
}

/// The fast-flag table after applying the performance section of `s`.
pub open spec fn performance_model(m: FlagModel, s: Settings) -> FlagModel {
    let m1 = model_set_preset(
        m,
        "Rendering.ManualFullscreen"@,
        if s.alt_enter_fix && s.use_flag_manager {
            Some("False"@)
        } else {
            None
        },
    );
    let m2 = model_set_preset(
        m1,
        "Performance.FpsCap"@,
        fps_cap_value(
            if s.use_flag_manager {
                Some(s.fps_cap)
            } else {
                None
            },
        ),
    );
    let m3 = rendering_mode_model(m2, s.rendering_mode);
    let m4 = model_set_preset(m3, "Rendering.MSAA1"@, msaa_flag_value(s.msaa));
    let m5 = model_set_preset(m4, "Rendering.FrmQuality"@, level_value(s.frm_quality));
    let m6 = texture_quality_model(m5, s.texture_quality);
    let m7 = low_poly_meshes_model(m6, s.low_poly_meshes);
    let m8 = remove_grass_model(m7, s.remove_grass);
    let m9 = model_set_preset(m8, "Rendering.PauseVoxelizer"@, true_or_none(s.pause_voxelizer));
    let m10 = model_set_preset(m9, "Rendering.DisableScaling"@, true_or_none(s.disable_dpi_scaling));
    model_set_preset(m10, "Graphic.GraySky"@, true_or_none(s.gray_sky))
}

fn trimmed_or_exec(s: &str, dflt: &str) -> (r: String)
    ensures
        r@ == trimmed_or(s@, dflt@),
{
    let t = trim_str(s);
    if t.len() == 0 {
        str_to_string(dflt)
    } else {
        string_of(t.as_slice())
    }
}

fn trimmed_exec(s: &str) -> (r: String)
    ensures
        r@ == trim(s@),
{
    let t = trim_str(s);
    string_of(t.as_slice())
}

fn clamp_u32(x: u32, lo: u32, hi: u32) -> (r: u32)
    requires
        lo <= hi,
    ensures
        r == clamp_int(x as int, lo as int, hi as int),
{
    if x < lo {
        lo
    } else if x > hi {
        hi
    } else {
        x
    }
}

fn kept_integrations_exec(v: &[CustomIntegration]) -> (r: Vec<CustomIntegration>)
    ensures
        r@ == kept_integrations(v@),
{
    let mut kept: Vec<CustomIntegration> = Vec::new();
    let n = v.len();
    let mut i: usize = 0;
    while i < n
        invariant
            n == v@.len(),
            i <= n,
            kept@ == kept_integrations(v@.take(i as int)),
        decreases n - i,
    {
        let item = v[i].copy();
        let name_t = trim_str(item.name.as_str());
        let exe_t = trim_str(item.exe.as_str());
        assert(v@.take(i + 1).drop_last() =~= v@.take(i as int));
        if name_t.len() > 0 || exe_t.len() > 0 {
            kept.push(item);
        }
        i += 1;
    }
    assert(v@.take(n as int) =~= v@);
    kept
}

fn kept_dirs_exec(v: &[String]) -> (r: Vec<String>)
    ensures
        r@ == kept_dirs(v@),
{
    let mut dirs: Vec<String> = Vec::new();
    let n = v.len();
    let mut i: usize = 0;
    while i < n
        invariant
            n == v@.len(),
            i <= n,
            dirs@ == kept_dirs(v@.take(i as int)),
        decreases n - i,
    {
        let d = v[i].clone();
        let t = trim_str(d.as_str());
        assert(v@.take(i + 1).drop_last() =~= v@.take(i as int));
        if t.len() > 0 {
            dirs.push(d);
        }
        i += 1;
    }
    assert(v@.take(n as int) =~= v@);
    dirs
}

/// The settings a fresh install starts from.
pub open spec fn is_default_settings(s: Settings) -> bool {
    &&& s.schema_version == SCHEMA_VERSION
    &&& s.update_check == UpdateChannel::Stable
    &&& !s.background_updates
    &&& s.update_repo@ == DEFAULT_UPDATE_REPO@
    &&& s.confirm_launches
    &&& !s.multi_instance_launching
    &&& s.instances_count == 2
    &&& s.instance_delay_ms == 1500
    &&& s.process_priority == ProcessPriority::Normal
    &&& !s.auto_close_crash_handler
    &&& s.cleaner == CleanerMode::Never
    &&& s.cleaner_extra_dirs@.len() == 0
    &&& s.channel@ == DEFAULT_CHANNEL@
    &&& s.channel_token@.len() == 0
    &&& s.roblox_domain@ == DEFAULT_ROBLOX_DOMAIN@
    &&& s.auto_update_roblox
    &&& !s.static_directory
    &&& s.custom_launch_command@.len() == 0
    &&& s.use_flag_manager
    &&& s.alt_enter_fix
    &&& s.fps_cap == 0
    &&& s.rendering_mode == RenderingMode::Default
    &&& s.msaa == MSAAMode::Default
    &&& s.frm_quality == 0
    &&& s.texture_quality == 0
    &&& !s.low_poly_meshes
    &&& !s.remove_grass
    &&& !s.pause_voxelizer
    &&& !s.disable_dpi_scaling
    &&& !s.gray_sky
    &&& s.gpu_preference == GpuPreference::System
    &&& !s.disable_fullscreen_optimizations
    &&& s.gbs_framerate_cap is None
    &&& !s.disable_vsync
    &&& s.activity_tracking
    &&& s.discord_rpc
    &&& s.discord_client_id@.len() == 0
    &&& s.rpc_hide_buttons
    &&& s.rpc_show_game_name
    &&& !s.rpc_show_account
    &&& s.playtime_counter
    &&& !s.auto_rejoin
    &&& s.show_server_details
    &&& !s.close_on_leave_game
    &&& s.custom_integrations@.len() == 0
    &&& s.last_recolor@ == "#e11d2e"@
    &&& s.shortcut_desktop
    &&& s.shortcut_start_menu
    &&& !s.shortcut_player
    &&& !s.shortcut_studio
    &&& !s.shortcut_settings
    &&& s.custom_font_path@.len() == 0
    &&& s.ui_scale_bits == UI_SCALE_DEFAULT_BITS
    &&& s.minimize_to_tray
    &&& !s.verbose_logging
}

impl Default for Settings {
    fn default() -> (r: Settings)
        ensures
            is_default_settings(r),
    {
        Settings {
            schema_version: SCHEMA_VERSION,
            update_check: UpdateChannel::Stable,
            background_updates: false,
            update_repo: str_to_string(DEFAULT_UPDATE_REPO),
            confirm_launches: true,
            multi_instance_launching: false,
            instances_count: 2,
            instance_delay_ms: 1500,
            process_priority: ProcessPriority::Normal,
            auto_close_crash_handler: false,
            cleaner: CleanerMode::Never,
            cleaner_extra_dirs: Vec::new(),
            channel: str_to_string(DEFAULT_CHANNEL),
            channel_token: String::new(),
            roblox_domain: str_to_string(DEFAULT_ROBLOX_DOMAIN),
            auto_update_roblox: true,
            static_directory: false,
            custom_launch_command: String::new(),
            use_flag_manager: true,
            alt_enter_fix: true,
            fps_cap: 0,
            rendering_mode: RenderingMode::Default,
            msaa: MSAAMode::Default,
            frm_quality: 0,
            texture_quality: 0,
            low_poly_meshes: false,
            remove_grass: false,
            pause_voxelizer: false,
            disable_dpi_scaling: false,
            gray_sky: false,
            gpu_preference: GpuPreference::System,
            disable_fullscreen_optimizations: false,
            gbs_framerate_cap: None,
            disable_vsync: false,
            activity_tracking: true,
            discord_rpc: true,
            discord_client_id: String::new(),
            rpc_hide_buttons: true,
            rpc_show_game_name: true,
            rpc_show_account: false,
            playtime_counter: true,
            auto_rejoin: false,
            show_server_details: true,
            close_on_leave_game: false,
            custom_integrations: Vec::new(),
            last_recolor: str_to_string("#e11d2e"),
            shortcut_desktop: true,
            shortcut_start_menu: true,
            shortcut_player: false,
            shortcut_studio: false,
            shortcut_settings: false,
            custom_font_path: String::new(),
            ui_scale_bits: UI_SCALE_DEFAULT_BITS,
            minimize_to_tray: true,
            verbose_logging: false,
        }
    }
}

proof fn lemma_kept_integrations_idempotent(v: Seq<CustomIntegration>)
    ensures
        kept_integrations(kept_integrations(v)) == kept_integrations(v),
    decreases v.len(),
{
    if v.len() > 0 {
        lemma_kept_integrations_idempotent(v.drop_last());
        let rest = kept_integrations(v.drop_last());
        let i = v.last();
        if trim(i.name@).len() > 0 || trim(i.exe@).len() > 0 {
            assert(rest.push(i).drop_last() =~= rest);
        }
    }
}

proof fn lemma_kept_dirs_idempotent(v: Seq<String>)
    ensures
        kept_dirs(kept_dirs(v)) == kept_dirs(v),
    decreases v.len(),
{
    if v.len() > 0 {
        lemma_kept_dirs_idempotent(v.drop_last());
        let rest = kept_dirs(v.drop_last());
        if trim(v.last()@).len() > 0 {
            assert(rest.push(v.last()).drop_last() =~= rest);
        }
    }
}

/// A non-blank default that trims to itself keeps a trimmed-or-default
/// field unchanged under a second repair.
proof fn lemma_trimmed_or_stable(s: Seq<char>, dflt: Seq<char>)
    requires
        dflt.len() > 0,
        trim(dflt) == dflt,
    ensures
        trimmed_or(trimmed_or(s, dflt), dflt) == trimmed_or(s, dflt),
{
    lemma_trim_idempotent(s);
}

proof fn lemma_defaults_trimmed()
    ensures
        trim(DEFAULT_CHANNEL@) == DEFAULT_CHANNEL@,
        trim(DEFAULT_ROBLOX_DOMAIN@) == DEFAULT_ROBLOX_DOMAIN@,
        trim(DEFAULT_UPDATE_REPO@) == DEFAULT_UPDATE_REPO@,
        DEFAULT_CHANNEL@.len() > 0,
        DEFAULT_ROBLOX_DOMAIN@.len() > 0,
        DEFAULT_UPDATE_REPO@.len() > 0,
{
    reveal_strlit("production");
    reveal_strlit("roblox.com");
    reveal_strlit("realkyx29-design/Redstrap-TEST-");
    lemma_trim_fixed(DEFAULT_CHANNEL@);
    lemma_trim_fixed(DEFAULT_ROBLOX_DOMAIN@);
    lemma_trim_fixed(DEFAULT_UPDATE_REPO@);
}

/// Repairing settings a second time changes nothing: whatever
/// `Settings::validate` returns already validates.
pub proof fn law_validate_idempotent(a: Settings, b: Settings)
    requires
        validated(a, b),
    ensures
        validated(b, b),
{
    lemma_defaults_trimmed();
    lemma_trimmed_or_stable(a.channel@, DEFAULT_CHANNEL@);
    lemma_trimmed_or_stable(a.roblox_domain@, DEFAULT_ROBLOX_DOMAIN@);
    lemma_trimmed_or_stable(a.update_repo@, DEFAULT_UPDATE_REPO@);
    lemma_trim_idempotent(a.custom_launch_command@);
    lemma_trim_idempotent(a.discord_client_id@);
    lemma_trim_idempotent(a.custom_font_path@);
    lemma_kept_integrations_idempotent(a.custom_integrations@);
    lemma_kept_dirs_idempotent(a.cleaner_extra_dirs@);
}

/// The default settings need no repair.
pub proof fn law_defaults_are_valid(s: Settings)
    requires
        is_default_settings(s),
    ensures
        validated(s, s),
{
    lemma_defaults_trimmed();
    lemma_trim_fixed(Seq::<char>::empty());
    assert(s.cleaner_extra_dirs@ =~= Seq::<String>::empty());
    assert(s.custom_integrations@ =~= Seq::<CustomIntegration>::empty());
    assert(s.custom_launch_command@ =~= Seq::<char>::empty());
    assert(s.discord_client_id@ =~= Seq::<char>::empty());
    assert(s.custom_font_path@ =~= Seq::<char>::empty());
}

impl Settings {
    /// Clamp numbers, trim strings, and repair empty critical values.
    pub fn validate(&mut self)
        ensures
            validated(*old(self), *final(self)),
    {
        let schema_version = if self.schema_version == 0 {
            SCHEMA_VERSION
        } else {
            self.schema_version
        };
        let instances_count = clamp_u32(self.instances_count, 1, 8);
        let instance_delay_ms = if self.instance_delay_ms > 30000 {
            30000
        } else {
            self.instance_delay_ms
        };
        let fps_cap = clamp_u32(self.fps_cap, 0, 1000);
        let frm_quality = if self.frm_quality > 21 {
            21
        } else {
            self.frm_quality
        };
        let texture_quality = if self.texture_quality > 4 {
            4
        } else {
            self.texture_quality
        };
        let ui_scale_bits = if self.ui_scale_bits < UI_SCALE_MIN_BITS || self.ui_scale_bits
            > UI_SCALE_MAX_BITS {
            UI_SCALE_DEFAULT_BITS
        } else {
            self.ui_scale_bits
        };
        let gbs_framerate_cap = match self.gbs_framerate_cap {
            Some(c) => Some(
                if c < 1 {
                    1
                } else if c > 1000 {
                    1000
                } else {
                    c
                },
            ),
            None => None,
        };
        let repaired = Settings {
            schema_version,
            update_check: self.update_check,
            background_updates: self.background_updates,
            update_repo: trimmed_or_exec(self.update_repo.as_str(), DEFAULT_UPDATE_REPO),
            confirm_launches: self.confirm_launches,
            multi_instance_launching: self.multi_instance_launching,
            instances_count,
            instance_delay_ms,
            process_priority: self.process_priority,
            auto_close_crash_handler: self.auto_close_crash_handler,
            cleaner: self.cleaner,
            cleaner_extra_dirs: kept_dirs_exec(self.cleaner_extra_dirs.as_slice()),
            channel: trimmed_or_exec(self.channel.as_str(), DEFAULT_CHANNEL),
            channel_token: self.channel_token.clone(),
            roblox_domain: trimmed_or_exec(self.roblox_domain.as_str(), DEFAULT_ROBLOX_DOMAIN),
            auto_update_roblox: self.auto_update_roblox,
            static_directory: self.static_directory,
            custom_launch_command: trimmed_exec(self.custom_launch_command.as_str()),
            use_flag_manager: self.use_flag_manager,
            alt_enter_fix: self.alt_enter_fix,
            fps_cap,
            rendering_mode: self.rendering_mode,
            msaa: self.msaa,
            frm_quality,
            texture_quality,
            low_poly_meshes: self.low_poly_meshes,
            remove_grass: self.remove_grass,
            pause_voxelizer: self.pause_voxelizer,
            disable_dpi_scaling: self.disable_dpi_scaling,
            gray_sky: self.gray_sky,
            gpu_preference: self.gpu_preference,
            disable_fullscreen_optimizations: self.disable_fullscreen_optimizations,
            gbs_framerate_cap,
            disable_vsync: self.disable_vsync,
            activity_tracking: self.activity_tracking,
            discord_rpc: self.discord_rpc,
            discord_client_id: trimmed_exec(self.discord_client_id.as_str()),
            rpc_hide_buttons: self.rpc_hide_buttons,
            rpc_show_game_name: self.rpc_show_game_name,
            rpc_show_account: self.rpc_show_account,
            playtime_counter: self.playtime_counter,
            auto_rejoin: self.auto_rejoin,
            show_server_details: self.show_server_details,
            close_on_leave_game: self.close_on_leave_game,
            custom_integrations: kept_integrations_exec(self.custom_integrations.as_slice()),
            last_recolor: self.last_recolor.clone(),
            shortcut_desktop: self.shortcut_desktop,
            shortcut_start_menu: self.shortcut_start_menu,
            shortcut_player: self.shortcut_player,
            shortcut_studio: self.shortcut_studio,
            shortcut_settings: self.shortcut_settings,
            custom_font_path: trimmed_exec(self.custom_font_path.as_str()),
            ui_scale_bits,
            minimize_to_tray: self.minimize_to_tray,
            verbose_logging: self.verbose_logging,
        };
        *self = repaired;
    }

    /// Apply the performance section to a flag store. Used when building
    /// the merged `ClientAppSettings.json` copy that Roblox reads; the
    /// user's editable flag file is never changed by it.
    pub fn apply_performance_flags(&self, flags: &mut FlagStore)
        requires
            old(flags).wf(),
        ensures
            final(flags).wf(),
            final(flags).model() == performance_model(old(flags).model(), *self),
    {
        apply_alt_enter_fix(flags, self.alt_enter_fix && self.use_flag_manager);
        apply_fps_cap(
            flags,
            if self.use_flag_manager {
                Some(self.fps_cap)
            } else {
                None
            },
        );
        apply_rendering_mode(flags, self.rendering_mode);
        apply_msaa(flags, self.msaa);
        apply_frm_quality(flags, self.frm_quality);
        apply_texture_quality(flags, self.texture_quality);
        apply_low_poly_meshes(flags, self.low_poly_meshes);
        apply_remove_grass(flags, self.remove_grass);
        apply_pause_voxelizer(flags, self.pause_voxelizer);
        apply_dpi_scaling(flags, self.disable_dpi_scaling);
        apply_gray_sky(flags, self.gray_sky);
    }
}

} // verus!
