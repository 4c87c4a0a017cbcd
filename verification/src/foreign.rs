//! Importing settings from another bootstrapper's `Settings.json`
//! (Bloxstrap / Fishstrap / Froststrap family: PascalCase keys, enums as
//! numbers). Unknown content is ignored and the result always validates.

use serde_json::Value;

use vstd::prelude::*;

use crate::consts::{DEFAULT_CHANNEL, DEFAULT_ROBLOX_DOMAIN, DEFAULT_UPDATE_REPO, SCHEMA_VERSION};
use crate::settings::{
    clamp_int, is_default_settings, law_defaults_are_valid, trimmed_or, validated, CleanerMode,
    GpuPreference, MSAAMode, ProcessPriority, RenderingMode, Settings, UpdateChannel,
    UI_SCALE_DEFAULT_BITS,
};
use crate::text::{chars_eq_str, str_eq, str_to_string, trim};

verus! {

/// A top-level member value of a JSON object, as far as Red Strap reads it:
/// booleans, strings, numbers (their text, and their value when it is a
/// non-negative integer that fits in 64 bits), and anything else.
#[derive(Debug, Clone)]
pub enum ForeignValue {
    Bool(bool),
    Text(String),
    Number { text: String, unsigned: Option<u64> },
    Other,
}

/// The abstract content of a [`ForeignValue`].
pub enum JsonField {
    Bool(bool),
    Text(Seq<char>),
    Number(Seq<char>, Option<u64>),
    Other,
}

pub open spec fn field_view(v: ForeignValue) -> JsonField {
    match v {
        ForeignValue::Bool(b) => JsonField::Bool(b),
        ForeignValue::Text(s) => JsonField::Text(s@),
        ForeignValue::Number { text, unsigned } => JsonField::Number(text@, unsigned),
        ForeignValue::Other => JsonField::Other,
    }
}

pub open spec fn fields_view(v: Seq<(String, ForeignValue)>) -> Seq<(Seq<char>, JsonField)> {
    v.map_values(|p: (String, ForeignValue)| (p.0@, field_view(p.1)))
}

/// The members of the top-level JSON object in `text`, or `None` when the
/// text is not JSON or its top level is not an object.
pub uninterp spec fn json_object_fields(text: Seq<char>) -> Option<Seq<(Seq<char>, JsonField)>>;

/// `serde_json::from_str::<Value>`: the members of the top-level object,
/// each value reduced to a boolean, a string, a number (its `to_string`
/// text and `Number::as_u64`), or "other". The contract names the result;
/// it is a function of the text alone (a JSON object's members come out in
/// the map's key order).
#[verifier::external_body]
pub(crate) fn parse_json_object(text: &str) -> (r: Option<Vec<(String, ForeignValue)>>)
    ensures
        match r {
            Some(v) => json_object_fields(text@) == Some(fields_view(v@)),
            None => json_object_fields(text@) is None,
        },
{
    let map = match serde_json::from_str::<Value>(text) {
        Ok(Value::Object(map)) => map,
        _ => return None,
    };
    let mut out = Vec::new();
    for (key, value) in map {
        out.push((key, match value {
            Value::Bool(b) => ForeignValue::Bool(b),
            Value::String(s) => ForeignValue::Text(s),
            Value::Number(n) => ForeignValue::Number { text: n.to_string(), unsigned: n.as_u64() },
            _ => ForeignValue::Other,
        }));
    }
    Some(out)
}

/// The value of the first member named `key`.
pub open spec fn member(f: Seq<(Seq<char>, JsonField)>, key: Seq<char>) -> Option<JsonField>
    decreases f.len(),
{
    if f.len() == 0 {
        None
    } else if f[0].0 == key {
        Some(f[0].1)
    } else {
        member(f.drop_first(), key)
    }
}

pub open spec fn bool_member(f: Seq<(Seq<char>, JsonField)>, key: Seq<char>, dflt: bool) -> bool {
    match member(f, key) {
        Some(JsonField::Bool(b)) => b,
        _ => dflt,
    }
}

pub open spec fn text_member(f: Seq<(Seq<char>, JsonField)>, key: Seq<char>, dflt: Seq<char>) -> Seq<
    char,
> {
    match member(f, key) {
        Some(JsonField::Text(s)) => s,
        _ => dflt,
    }
}

pub open spec fn u64_member(f: Seq<(Seq<char>, JsonField)>, key: Seq<char>) -> Option<u64> {
    match member(f, key) {
        Some(JsonField::Number(_, Some(n))) => Some(n),
        _ => None,
    }
}

/// `n as u32`: the low 32 bits.
pub open spec fn low32(n: u64) -> u32 {
    (n % 0x1_0000_0000) as u32
}

pub open spec fn priority_from(v: u32) -> ProcessPriority {
    if v == 0 {
        ProcessPriority::Low
    } else if v == 1 {
        ProcessPriority::BelowNormal
    } else if v == 3 {
        ProcessPriority::AboveNormal
    } else if v == 4 {
        ProcessPriority::High
    } else if v == 5 {
        ProcessPriority::RealTime
    } else {
        ProcessPriority::Normal
    }
}

pub open spec fn update_channel_from(v: u32) -> UpdateChannel {
    if v == 0 {
        UpdateChannel::Disabled
    } else if v == 2 {
        UpdateChannel::PreRelease
    } else if v == 3 {
        UpdateChannel::Both
    } else {
        UpdateChannel::Stable
    }
}

pub open spec fn cleaner_from(v: u32) -> CleanerMode {
    if v == 1 {
        CleanerMode::OnLaunch
    } else if v == 2 {
        CleanerMode::OnClose
    } else {
        CleanerMode::Never
    }
}

/// The imported settings: the defaults, with each recognised member of
/// the foreign object taking the place of its setting, then repaired as
/// `Settings::validate` does.
pub open spec fn imported(f: Seq<(Seq<char>, JsonField)>, s: Settings) -> bool {
    &&& s.schema_version == SCHEMA_VERSION
    &&& s.update_check == match u64_member(f, "UpdateChecks"@) {
        Some(n) => update_channel_from(low32(n)),
        None => UpdateChannel::Stable,
    }
    &&& s.background_updates == bool_member(f, "BackgroundUpdatesEnabled"@, false)
    &&& s.update_repo@ == DEFAULT_UPDATE_REPO@
    &&& s.confirm_launches == bool_member(f, "ConfirmLaunches"@, true)
    &&& s.multi_instance_launching == bool_member(f, "MultiInstanceLaunching"@, false)
    &&& s.instances_count == clamp_int(
        match u64_member(f, "MultibloxInstanceCount"@) {
            Some(n) => low32(n) as int,
            None => 2,
        },
        1,
        8,
    )
    &&& s.instance_delay_ms == clamp_int(
        match u64_member(f, "MultibloxDelayMs"@) {
            Some(n) => n as int,
            None => 1500,
        },
        0,
        30000,
    )
    &&& s.process_priority == match u64_member(f, "SelectedProcessPriority"@) {
        Some(n) => priority_from(low32(n)),
        None => ProcessPriority::Normal,
    }
    &&& s.auto_close_crash_handler == bool_member(f, "AutoCloseCrashHandler"@, false)
    &&& s.cleaner == match u64_member(f, "CleanerOptions"@) {
        Some(n) => cleaner_from(low32(n)),
        None => CleanerMode::Never,
    }
    &&& s.cleaner_extra_dirs@.len() == 0
    &&& s.channel@ == trimmed_or(text_member(f, "Channel"@, DEFAULT_CHANNEL@), DEFAULT_CHANNEL@)
    &&& s.channel_token@.len() == 0
    &&& s.roblox_domain@ == trimmed_or(
        text_member(f, "RobloxDomain"@, DEFAULT_ROBLOX_DOMAIN@),
        DEFAULT_ROBLOX_DOMAIN@,
    )
    &&& s.auto_update_roblox == bool_member(f, "UpdateRoblox"@, true)
    &&& s.static_directory == bool_member(f, "StaticDirectory"@, false)
    &&& s.custom_launch_command@.len() == 0
    &&& s.use_flag_manager == bool_member(f, "UseFastFlagManager"@, true)
    &&& s.alt_enter_fix == bool_member(f, "UseAltManually"@, true)
    &&& s.fps_cap == 0
    &&& s.rendering_mode == RenderingMode::Default
    &&& s.msaa == MSAAMode::Default
    &&& s.frm_quality == 0
    &&& s.texture_quality == 0
    &&& !s.low_poly_meshes
    &&& !s.remove_grass
    &&& !s.pause_voxelizer
    &&& !s.disable_dpi_scaling
    &&& !s.gray_sky
    &&& s.gpu_preference == GpuPreference::System
    &&& !s.disable_fullscreen_optimizations
    &&& s.gbs_framerate_cap is None
    &&& !s.disable_vsync
    &&& s.activity_tracking == bool_member(f, "EnableActivityTracking"@, true)
    &&& s.discord_rpc == bool_member(f, "UseDiscordRichPresence"@, true)
    &&& s.discord_client_id@.len() == 0
    &&& s.rpc_hide_buttons == bool_member(f, "HideRPCButtons"@, true)
    &&& s.rpc_show_game_name
    &&& !s.rpc_show_account
    &&& s.playtime_counter == bool_member(f, "PlaytimeCounter"@, true)
    &&& s.auto_rejoin == bool_member(f, "AutoRejoin"@, false)
    &&& s.show_server_details
    &&& s.close_on_leave_game == bool_member(f, "UseDisableAppPatch"@, false)
    &&& s.custom_integrations@.len() == 0
    &&& s.last_recolor@ == "#e11d2e"@
    &&& s.shortcut_desktop
    &&& s.shortcut_start_menu
    &&& !s.shortcut_player
    &&& !s.shortcut_studio
    &&& !s.shortcut_settings
    &&& s.custom_font_path@ == trim(text_member(f, "CustomFontPath"@, Seq::empty()))
    &&& s.ui_scale_bits == UI_SCALE_DEFAULT_BITS
    &&& s.minimize_to_tray
    &&& !s.verbose_logging
}

fn member_exec<'a>(fields: &'a [(String, ForeignValue)], key: &str) -> (r: Option<&'a ForeignValue>)
    ensures
        match member(fields_view(fields@), key@) {
            Some(v) => r is Some && field_view(*r->0) == v,
            None => r is None,
        },
{
    let ghost fv = fields_view(fields@);
    assert(fv.skip(0) =~= fv);
    let mut i: usize = 0;
    while i < fields.len()
        invariant
            i <= fields@.len(),
            fv == fields_view(fields@),
            member(fv, key@) == member(fv.skip(i as int), key@),
        decreases fields.len() - i,
    {
        let ghost rest = fv.skip(i as int);
        assert(rest.drop_first() =~= fv.skip(i + 1));
        assert(rest[0] == fv[i as int]);
        if str_eq(fields[i].0.as_str(), key) {
            return Some(&fields[i].1);
        }
        i += 1;
    }
    assert(fv.skip(i as int) =~= Seq::<(Seq<char>, JsonField)>::empty());
    None
}

fn bool_exec(fields: &[(String, ForeignValue)], key: &str, dflt: bool) -> (r: bool)
    ensures
        r == bool_member(fields_view(fields@), key@, dflt),
{
    match member_exec(fields, key) {
        Some(ForeignValue::Bool(b)) => *b,
        _ => dflt,
    }
}

fn u64_exec(fields: &[(String, ForeignValue)], key: &str) -> (r: Option<u64>)
    ensures
        r == u64_member(fields_view(fields@), key@),
{
    match member_exec(fields, key) {
        Some(ForeignValue::Number { unsigned: Some(n), .. }) => Some(*n),
        _ => None,
    }
}

fn text_exec(fields: &[(String, ForeignValue)], key: &str, dflt: &str) -> (r: String)
    ensures
        r@ == text_member(fields_view(fields@), key@, dflt@),
{
    match member_exec(fields, key) {
        Some(ForeignValue::Text(s)) => s.clone(),
        _ => str_to_string(dflt),
    }
}

fn low32_exec(n: u64) -> (r: u32)
    ensures
        r == low32(n),
{
    (n % 0x1_0000_0000) as u32
}

/// Settings made from the members of a foreign settings object (`None`
/// when the file did not hold a JSON object).
pub fn import_from_foreign_fields(fields: Option<Vec<(String, ForeignValue)>>) -> (r: Settings)
    ensures
        imported(
            match fields {
                Some(v) => fields_view(v@),
                None => Seq::empty(),
            },
            r,
        ),
{
    let fields = match fields {
        Some(v) => v,
        None => {
            let out = Settings::default();
            proof {
                law_defaults_are_valid(out);
                reveal_strlit("production");
                reveal_strlit("roblox.com");
                crate::text::lemma_trim_fixed(DEFAULT_CHANNEL@);
                crate::text::lemma_trim_fixed(DEFAULT_ROBLOX_DOMAIN@);
                crate::text::lemma_trim_fixed(Seq::<char>::empty());
                assert(out.custom_font_path@ =~= Seq::<char>::empty());
            }
            return out;
        },
    };
    let f = fields.as_slice();
    let instances_count = match u64_exec(f, "MultibloxInstanceCount") {
        Some(n) => low32_exec(n),
        None => 2,
    };
    let instance_delay_ms = match u64_exec(f, "MultibloxDelayMs") {
        Some(n) => n,
        None => 1500,
    };
    let process_priority = match u64_exec(f, "SelectedProcessPriority") {
        Some(n) => {
            let v = low32_exec(n);
            if v == 0 {
                ProcessPriority::Low
            } else if v == 1 {
                ProcessPriority::BelowNormal
            } else if v == 3 {
                ProcessPriority::AboveNormal
            } else if v == 4 {
                ProcessPriority::High
            } else if v == 5 {
                ProcessPriority::RealTime
            } else {
                ProcessPriority::Normal
            }
        },
        None => ProcessPriority::Normal,
    };
    let update_check = match u64_exec(f, "UpdateChecks") {
        Some(n) => {
            let v = low32_exec(n);
            if v == 0 {
                UpdateChannel::Disabled
            } else if v == 2 {
                UpdateChannel::PreRelease
            } else if v == 3 {
                UpdateChannel::Both
            } else {
                UpdateChannel::Stable
            }
        },
        None => UpdateChannel::Stable,
    };
    let cleaner = match u64_exec(f, "CleanerOptions") {
        Some(n) => {
            let v = low32_exec(n);
            if v == 1 {
                CleanerMode::OnLaunch
            } else if v == 2 {
                CleanerMode::OnClose
            } else {
                CleanerMode::Never
            }
        },
        None => CleanerMode::Never,
    };
    let mut out = Settings {
        update_check,
        background_updates: bool_exec(f, "BackgroundUpdatesEnabled", false),
        confirm_launches: bool_exec(f, "ConfirmLaunches", true),
        multi_instance_launching: bool_exec(f, "MultiInstanceLaunching", false),
        instances_count,
        instance_delay_ms,
        process_priority,
        auto_close_crash_handler: bool_exec(f, "AutoCloseCrashHandler", false),
        cleaner,
        channel: text_exec(f, "Channel", DEFAULT_CHANNEL),
        roblox_domain: text_exec(f, "RobloxDomain", DEFAULT_ROBLOX_DOMAIN),
        auto_update_roblox: bool_exec(f, "UpdateRoblox", true),
        static_directory: bool_exec(f, "StaticDirectory", false),
        use_flag_manager: bool_exec(f, "UseFastFlagManager", true),
        alt_enter_fix: bool_exec(f, "UseAltManually", true),
        activity_tracking: bool_exec(f, "EnableActivityTracking", true),
        discord_rpc: bool_exec(f, "UseDiscordRichPresence", true),
        rpc_hide_buttons: bool_exec(f, "HideRPCButtons", true),
        playtime_counter: bool_exec(f, "PlaytimeCounter", true),
        auto_rejoin: bool_exec(f, "AutoRejoin", false),
        close_on_leave_game: bool_exec(f, "UseDisableAppPatch", false),
        custom_font_path: text_exec(f, "CustomFontPath", ""),
        ..Settings::default()
    };
    let ghost mid = out;
    out.validate();
    proof {
        reveal_strlit("");
        assert(""@ =~= Seq::<char>::empty());
        reveal_strlit("realkyx29-design/Redstrap-TEST-");
        crate::text::lemma_trim_fixed(DEFAULT_UPDATE_REPO@);
        crate::text::lemma_trim_fixed(Seq::<char>::empty());
        assert(mid.cleaner_extra_dirs@ =~= Seq::<String>::empty());
        assert(mid.custom_integrations@ =~= Seq::<crate::settings::CustomIntegration>::empty());
        assert(mid.custom_launch_command@ =~= Seq::<char>::empty());
        assert(mid.discord_client_id@ =~= Seq::<char>::empty());
    }
    out
}

/// Import recognised keys from another bootstrapper's `Settings.json`.
/// Text that is not a JSON object gives the default settings.
pub fn import_from_foreign_json(text: &str) -> (r: Settings)
    ensures
        imported(
            match json_object_fields(text@) {
                Some(f) => f,
                None => Seq::empty(),
            },
            r,
        ),
{
    import_from_foreign_fields(parse_json_object(text))
}

} // verus!
