//! Decisions of the Roblox install/update pipeline: which version to
//! install, whether to install at all, which packages to fetch, whether a
//! download is trusted, and how a version directory is customized (mods,
//! the settings file, OS preferences) and cleaned up.
//!
//! Network and file work (the mirror race, downloads, extraction, writing
//! files and registry values) is done by the caller between these steps.

use vstd::prelude::*;

use crate::consts::STATIC_VERSION_DIR;
use crate::deployment::{location, location_spec};
use crate::error::RedStrapError;
use crate::gbs::{
    key_before, properties_view, property_view, sorted_updates, Property, PropertyView,
    CLASS_RENDER_SETTINGS, PROP_FRAMERATE_CAP, PROP_MSAALEVEL, PROP_VSYNC,
};
use crate::manifest::Package;
use crate::roblox::LaunchMode;
use crate::settings::{msaa_flag_value, GpuPreference, Settings};
use crate::state::{hash_lookup, DistributionState, ModConfig, State};
use crate::text::{
    chars_of, dec, eq_ignore_case, eq_ignore_case_exec, push_char, push_dec, push_str,
    starts_with, starts_with_str, str_eq, str_to_string, string_of, trim, trim_str,
};

verus! {

// ---------------------------------------------------------------------------
// Outcomes
// ---------------------------------------------------------------------------

/// Outcome of making sure an app is installed.
#[derive(Debug, Clone)]
pub struct InstallOutcome {
    pub version_guid: String,
    pub version_label: String,
    pub version_dir: String,
    pub exe: String,
    pub did_install: bool,
}

/// Report from customizing a version directory.
#[derive(Debug, Clone)]
pub struct CustomReport {
    pub flags_written: bool,
    pub mods_copied: usize,
    pub mod_failures: Vec<String>,
    pub gbs_updated: bool,
}

impl Default for CustomReport {
    fn default() -> (r: Self)
        ensures
            !r.flags_written,
            r.mods_copied == 0,
            r.mod_failures@ == Seq::<String>::empty(),
            !r.gbs_updated,
    {
        CustomReport {
            flags_written: false,
            mods_copied: 0,
            mod_failures: Vec::new(),
            gbs_updated: false,
        }
    }
}

// ---------------------------------------------------------------------------
// What to install
// ---------------------------------------------------------------------------

/// A version pin takes effect when it is not blank; it is used trimmed.
pub open spec fn pinned(pin: Option<Seq<char>>) -> Option<Seq<char>> {
    match pin {
        Some(p) if trim(p).len() > 0 => Some(trim(p)),
        _ => None,
    }
}

/// The pinned `version-<hash>`, when a non-blank pin was given.
pub fn pinned_version(pin: Option<&str>) -> (r: Option<String>)
    ensures
        match r {
            Some(s) => pinned(crate::fastflags::opt_view(pin)) == Some(s@),
            None => pinned(crate::fastflags::opt_view(pin)) is None,
        },
{
    match pin {
        Some(p) => {
            let t = trim_str(p);
            if t.len() > 0 {
                Some(string_of(t.as_slice()))
            } else {
                None
            }
        },
        None => None,
    }
}

/// What to do about the app's installation.
#[derive(Debug, Clone, Copy, PartialEq, Eq, Structural)]
pub enum InstallPlan {
    /// The target version is installed and its executable is present.
    UpToDate,
    /// Updates are blocked; the installed version is used as it is.
    UseInstalled,
    /// Download and install the target version.
    Install,
}

/// The recorded install is the target version and is usable.
pub open spec fn up_to_date(
    force: bool,
    installed_guid: Seq<char>,
    target_guid: Seq<char>,
    target_exe_present: bool,
) -> bool {
    !force && installed_guid == target_guid && installed_guid.len() > 0 && target_exe_present
}

/// The plan, or `None` when updates are blocked and nothing usable is
/// installed: an up-to-date install is kept; with automatic updates off
/// and no pin given, the installed version is used if its executable is
/// present; otherwise the target is installed.
pub open spec fn install_plan(
    force: bool,
    auto_update: bool,
    pin_given: bool,
    installed_guid: Seq<char>,
    target_guid: Seq<char>,
    target_exe_present: bool,
    installed_exe_present: bool,
) -> Option<InstallPlan> {
    if up_to_date(force, installed_guid, target_guid, target_exe_present) {
        Some(InstallPlan::UpToDate)
    } else if !auto_update && !pin_given {
        if installed_guid.len() > 0 && installed_exe_present {
            Some(InstallPlan::UseInstalled)
        } else {
            None
        }
    } else {
        Some(InstallPlan::Install)
    }
}

/// Decide how to bring the app to `target_guid`. `pin_given` tells whether
/// the caller passed a version pin at all; the two flags tell whether the
/// target's and the installed version's executables exist.
pub fn plan_install(
    force: bool,
    auto_update: bool,
    pin_given: bool,
    dist: &DistributionState,
    target_guid: &str,
    target_exe_present: bool,
    installed_exe_present: bool,
) -> (r: Result<InstallPlan, RedStrapError>)
    ensures
        match install_plan(
            force,
            auto_update,
            pin_given,
            dist.version_guid@,
            target_guid@,
            target_exe_present,
            installed_exe_present,
        ) {
            Some(p) => r == Ok::<InstallPlan, RedStrapError>(p),
            None => r matches Err(e) && e is NotInstalledUpdatesBlocked,
        },
{
    let installed = dist.is_installed();
    if !force && str_eq(dist.version_guid.as_str(), target_guid) && installed && target_exe_present {
        return Ok(InstallPlan::UpToDate);
    }
    if !auto_update && !pin_given {
        if installed && installed_exe_present {
            return Ok(InstallPlan::UseInstalled);
        }
        return Err(RedStrapError::NotInstalledUpdatesBlocked);
    }
    Ok(InstallPlan::Install)
}

// ---------------------------------------------------------------------------
// Packages
// ---------------------------------------------------------------------------

/// A manifest that lists no packages cannot be installed.
pub fn check_package_list(packages: &[Package]) -> (r: Result<(), RedStrapError>)
    ensures
        packages@.len() == 0 <==> r is Err,
        r matches Err(e) ==> e matches RedStrapError::Manifest(m) && m@
            == "package manifest lists no files"@,
{
    if packages.len() == 0 {
        return Err(RedStrapError::Manifest(str_to_string("package manifest lists no files")));
    }
    Ok(())
}

/// URL of a version's package manifest on the mirror.
pub fn manifest_url(base_url: &str, channel: &str, version_guid: &str) -> (r: String)
    ensures
        r@ == location_spec(base_url@, channel@, seq!['/'] + version_guid@ + "-rbxPkgManifest.txt"@),
{
    let mut resource = String::new();
    push_char(&mut resource, '/');
    push_str(&mut resource, version_guid);
    push_str(&mut resource, "-rbxPkgManifest.txt");
    location(base_url, channel, resource.as_str())
}

/// URL of one package on the mirror.
pub fn package_url(base_url: &str, channel: &str, name: &str) -> (r: String)
    ensures
        r@ == location_spec(base_url@, channel@, seq!['/'] + name@),
{
    let mut resource = String::new();
    push_char(&mut resource, '/');
    push_str(&mut resource, name);
    location(base_url, channel, resource.as_str())
}

/// A staged package need not be fetched again: its recorded signature is
/// the manifest's and the staged file has the packed size.
pub open spec fn is_fresh(p: Package, hashes: Seq<(String, String)>, staged: Option<u64>) -> bool {
    hash_lookup(hashes, p.name@) == Some(p.signature@) && staged == Some(p.packed_size)
}

/// The packages that are not fresh, in manifest order.
pub open spec fn stale_packages(
    ps: Seq<Package>,
    hashes: Seq<(String, String)>,
    staged: Seq<Option<u64>>,
) -> Seq<Package>
    decreases ps.len(),
{
    if ps.len() == 0 || staged.len() == 0 {
        Seq::empty()
    } else {
        let rest = stale_packages(ps.drop_last(), hashes, staged.drop_last());
        if is_fresh(ps.last(), hashes, staged.last()) {
            rest
        } else {
            rest.push(ps.last())
        }
    }
}

/// Downloads resume by skipping: a package whose recorded signature is the
/// manifest's and whose staged file has its packed size is never in the
/// fetch list, and every other package of the manifest is.
pub proof fn law_fetch_list_skips_fresh_packages(
    ps: Seq<Package>,
    hashes: Seq<(String, String)>,
    staged: Seq<Option<u64>>,
)
    requires
        staged.len() == ps.len(),
    ensures
        forall|p: Package|
            #[trigger] stale_packages(ps, hashes, staged).contains(p) ==> exists|k: int|
                0 <= k < ps.len() && ps[k] == p && !is_fresh(ps[k], hashes, staged[k]),
        forall|k: int|
            0 <= k < ps.len() && !is_fresh(#[trigger] ps[k], hashes, staged[k]) ==> stale_packages(
                ps,
                hashes,
                staged,
            ).contains(ps[k]),
    decreases ps.len(),
{
    if ps.len() > 0 {
        let ps0 = ps.drop_last();
        let st0 = staged.drop_last();
        law_fetch_list_skips_fresh_packages(ps0, hashes, st0);
        let rest = stale_packages(ps0, hashes, st0);
        let all = stale_packages(ps, hashes, staged);
        let n = ps.len() - 1;
        assert forall|p: Package| #[trigger] all.contains(p) implies exists|k: int|
            0 <= k < ps.len() && ps[k] == p && !is_fresh(ps[k], hashes, staged[k]) by {
            let i = choose|i: int| 0 <= i < all.len() && all[i] == p;
            if i < rest.len() {
                assert(rest[i] == p);
                assert(rest.contains(p));
                let k = choose|k: int|
                    0 <= k < ps0.len() && ps0[k] == p && !is_fresh(ps0[k], hashes, st0[k]);
                assert(ps[k] == ps0[k] && staged[k] == st0[k]);
            } else {
                assert(ps[n] == p && !is_fresh(ps[n], hashes, staged[n]));
            }
        }
        assert forall|k: int|
            0 <= k < ps.len() && !is_fresh(#[trigger] ps[k], hashes, staged[k]) implies all.contains(
            ps[k],
        ) by {
            if k < n {
                assert(ps0[k] == ps[k] && st0[k] == staged[k]);
                assert(!is_fresh(ps0[k], hashes, st0[k]));
                assert(rest.contains(ps0[k]));
                let i = choose|i: int| 0 <= i < rest.len() && rest[i] == ps0[k];
                assert(all[i] == ps[k]);
            } else {
                assert(all[all.len() - 1] == ps[k]);
            }
        }
    }
}

fn copy_package(p: &Package) -> (r: Package)
    ensures
        r == *p,
{
    Package {
        name: p.name.clone(),
        signature: p.signature.clone(),
        packed_size: p.packed_size,
        size: p.size,
    }
}

/// Decide what to fetch. `staged_sizes[i]` is the size of the staged file
/// of `packages[i]`, `None` when there is none.
pub fn packages_to_fetch(
    packages: &[Package],
    dist: &DistributionState,
    staged_sizes: &[Option<u64>],
) -> (r: Vec<Package>)
    requires
        staged_sizes@.len() == packages@.len(),
    ensures
        r@ == stale_packages(packages@, dist.package_hashes@, staged_sizes@),
{
    let n = packages.len();
    let mut out: Vec<Package> = Vec::new();
    let mut i: usize = 0;
    while i < n
        invariant
            n == packages@.len(),
            staged_sizes@.len() == n,
            i <= n,
            out@ == stale_packages(
                packages@.take(i as int),
                dist.package_hashes@,
                staged_sizes@.take(i as int),
            ),
        decreases n - i,
    {
        let p = &packages[i];
        let recorded = match dist.recorded_signature(p.name.as_str()) {
            Some(s) => str_eq(s.as_str(), p.signature.as_str()),
            None => false,
        };
        let fresh = recorded && match staged_sizes[i] {
            Some(len) => len == p.packed_size,
            None => false,
        };
        proof {
            assert(packages@.take(i + 1).drop_last() =~= packages@.take(i as int));
            assert(staged_sizes@.take(i + 1).drop_last() =~= staged_sizes@.take(i as int));
            assert(fresh == is_fresh(packages@[i as int], dist.package_hashes@, staged_sizes@[i as int]));
        }
        if !fresh {
            out.push(copy_package(p));
        }
        i += 1;
    }
    proof {
        assert(packages@.take(n as int) =~= packages@);
        assert(staged_sizes@.take(n as int) =~= staged_sizes@);
    }
    out
}

/// Sum of the packed sizes of `ps`.
pub open spec fn packed_total(ps: Seq<Package>) -> int
    decreases ps.len(),
{
    if ps.len() == 0 {
        0
    } else {
        packed_total(ps.drop_last()) + ps.last().packed_size
    }
}

proof fn lemma_packed_total_prefix(ps: Seq<Package>, i: int)
    requires
        0 <= i <= ps.len(),
    ensures
        packed_total(ps.take(i)) <= packed_total(ps),
    decreases ps.len() - i,
{
    if i < ps.len() {
        lemma_packed_total_prefix(ps, i + 1);
        assert(ps.take(i + 1).drop_last() =~= ps.take(i));
    } else {
        assert(ps.take(i) =~= ps);
    }
}

/// Total bytes to download for `packages`, or `None` when the total does
/// not fit in 64 bits (a manifest no real download can have).
pub fn checked_packed_bytes(packages: &[Package]) -> (r: Option<u64>)
    ensures
        match r {
            Some(t) => t == packed_total(packages@),
            None => packed_total(packages@) > u64::MAX,
        },
{
    let mut total: u64 = 0;
    let mut i: usize = 0;
    while i < packages.len()
        invariant
            i <= packages@.len(),
            total == packed_total(packages@.take(i as int)),
        decreases packages.len() - i,
    {
        proof {
            assert(packages@.take(i + 1).drop_last() =~= packages@.take(i as int));
        }
        if total > u64::MAX - packages[i].packed_size {
            proof {
                lemma_packed_total_prefix(packages@, i + 1);
            }
            return None;
        }
        total = total + packages[i].packed_size;
        i += 1;
    }
    assert(packages@.take(packages@.len() as int) =~= packages@);
    Some(total)
}

/// Total bytes to download for `packages`.
pub fn total_packed_bytes(packages: &[Package]) -> (r: u64)
    requires
        packed_total(packages@) <= u64::MAX,
    ensures
        r == packed_total(packages@),
{
    let mut total: u64 = 0;
    let mut i: usize = 0;
    while i < packages.len()
        invariant
            i <= packages@.len(),
            packed_total(packages@) <= u64::MAX,
            total == packed_total(packages@.take(i as int)),
        decreases packages.len() - i,
    {
        proof {
            assert(packages@.take(i + 1).drop_last() =~= packages@.take(i as int));
            lemma_packed_total_prefix(packages@, i + 1);
        }
        total = total + packages[i].packed_size;
        i += 1;
    }
    assert(packages@.take(packages@.len() as int) =~= packages@);
    total
}

impl DistributionState {
    /// Accept a finished download only when its MD5 matches the manifest
    /// signature (ignoring ASCII case); an accepted package's signature is
    /// recorded.
    pub fn accept_download(&mut self, name: String, expected: String, actual: String) -> (r: Result<
        (),
        RedStrapError,
    >)
        requires
            old(self).hashes_wf(),
        ensures
            final(self).hashes_wf(),
            r is Ok <==> eq_ignore_case(actual@, expected@),
            r is Ok ==> {
                &&& final(self).version_guid == old(self).version_guid
                &&& final(self).size_bytes == old(self).size_bytes
                &&& forall|n: Seq<char>|
                    #![trigger hash_lookup(final(self).package_hashes@, n)]
                    hash_lookup(final(self).package_hashes@, n) == if n == name@ {
                        Some(expected@)
                    } else {
                        hash_lookup(old(self).package_hashes@, n)
                    }
            },
            r is Err ==> *final(self) == *old(self),
            r matches Err(e) ==> e matches RedStrapError::Checksum { file, expected: x, actual: a }
                && file@ == name@ && x@ == expected@ && a@ == actual@,
    {
        let matches = eq_ignore_case_exec(
            chars_of(actual.as_str()).as_slice(),
            chars_of(expected.as_str()).as_slice(),
        );
        if !matches {
            return Err(RedStrapError::Checksum { file: name, expected, actual });
        }
        self.record_package(name, expected);
        Ok(())
    }
}

/// The error when an install finished without the app's executable.
pub fn missing_executable(mode: LaunchMode) -> (r: RedStrapError)
    ensures
        r matches RedStrapError::Extraction(m) && m@ == (if mode is Player {
            crate::consts::ROBLOX_PLAYER_EXE@
        } else {
            crate::consts::ROBLOX_STUDIO_EXE@
        }) + " is missing after install; the download may be incomplete"@,
{
    let mut m = str_to_string(mode.exe_name());
    push_str(&mut m, " is missing after install; the download may be incomplete");
    RedStrapError::Extraction(m)
}

// ---------------------------------------------------------------------------
// The settings file
// ---------------------------------------------------------------------------

/// Decimal text of a signed number, as `to_string` writes it.
pub open spec fn signed_dec(n: int) -> Seq<char> {
    if n < 0 {
        seq!['-'] + dec((-n) as nat)
    } else {
        dec(n as nat)
    }
}

fn push_signed(s: &mut String, n: i32)
    ensures
        final(s)@ == old(s)@ + signed_dec(n as int),
{
    if n < 0 {
        push_char(s, '-');
        let m: i64 = -(n as i64);
        push_dec(s, m as u64);
    } else {
        push_dec(s, n as u64);
    }
}

/// The frame cap written to the settings file: an explicit cap, else the
/// fast-flag FPS cap when the flag manager is on and a cap is set.
pub open spec fn framerate_value(s: Settings) -> Option<Seq<char>> {
    match s.gbs_framerate_cap {
        Some(cap) => Some(signed_dec(cap as int)),
        None => if s.use_flag_manager && s.fps_cap > 0 {
            Some(dec(s.fps_cap as nat))
        } else {
            None
        },
    }
}

pub open spec fn render_setting(name: Seq<char>, value: Seq<char>) -> PropertyView {
    (CLASS_RENDER_SETTINGS@, name, value)
}

/// The settings-file updates for `s`, in key order: the frame cap, the MSAA
/// sample count, and the VSync kill-switch, each only when it applies.
pub open spec fn gbs_updates_spec(s: Settings) -> Seq<PropertyView> {
    let cap: Seq<PropertyView> = match framerate_value(s) {
        Some(v) => seq![render_setting(PROP_FRAMERATE_CAP@, v)],
        None => Seq::empty(),
    };
    let msaa: Seq<PropertyView> = match msaa_flag_value(s.msaa) {
        Some(v) => seq![render_setting(PROP_MSAALEVEL@, v)],
        None => Seq::empty(),
    };
    let vsync: Seq<PropertyView> = if s.disable_vsync {
        seq![render_setting(PROP_VSYNC@, "True"@)]
    } else {
        Seq::empty()
    };
    cap + msaa + vsync
}

fn render_update(name: &str, value: String) -> (r: Property)
    ensures
        property_view(r) == render_setting(name@, value@),
{
    Property { class: str_to_string(CLASS_RENDER_SETTINGS), name: str_to_string(name), value }
}

/// Translate the settings-file related settings into updates. Only
/// properties with known value semantics are written: an explicit frame
/// cap, the MSAA sample count, and the VSync kill-switch.
pub fn gbs_updates(settings: &Settings) -> (r: Vec<Property>)
    ensures
        properties_view(r@) == gbs_updates_spec(*settings),
        sorted_updates(properties_view(r@)),
{
    let mut out: Vec<Property> = Vec::new();
    let ghost mut cap: Seq<PropertyView> = Seq::empty();
    match settings.gbs_framerate_cap {
        Some(c) => {
            let mut v = String::new();
            push_signed(&mut v, c);
            out.push(render_update(PROP_FRAMERATE_CAP, v));
        },
        None => {
            if settings.use_flag_manager && settings.fps_cap > 0 {
                let mut v = String::new();
                push_dec(&mut v, settings.fps_cap as u64);
                out.push(render_update(PROP_FRAMERATE_CAP, v));
            }
        },
    }
    let ghost after_cap = properties_view(out@);
    match settings.msaa.flag_value() {
        Some(level) => {
            out.push(render_update(PROP_MSAALEVEL, str_to_string(level)));
        },
        None => {},
    }
    let ghost after_msaa = properties_view(out@);
    if settings.disable_vsync {
        out.push(render_update(PROP_VSYNC, str_to_string("True")));
    }
    proof {
        reveal_strlit("FramerateCap");
        reveal_strlit("MSAALevel");
        reveal_strlit("VSyncDisabled");
        assert(crate::flagmodel::key_lt(PROP_FRAMERATE_CAP@, PROP_MSAALEVEL@));
        assert(crate::flagmodel::key_lt(PROP_MSAALEVEL@, PROP_VSYNC@));
        assert(crate::flagmodel::key_lt(PROP_FRAMERATE_CAP@, PROP_VSYNC@));
        assert(properties_view(out@) =~= gbs_updates_spec(*settings));
    }
    out
}

// ---------------------------------------------------------------------------
// OS preferences (Windows)
// ---------------------------------------------------------------------------

/// Per-application GPU preferences key.
pub const GPU_PREFERENCES_KEY: &'static str = "Software\\Microsoft\\DirectX\\UserGpuPreferences";

/// Compatibility-layer flags key.
pub const LAYERS_KEY: &'static str =
    "Software\\Microsoft\\Windows NT\\CurrentVersion\\AppCompatFlags\\Layers";

/// The compatibility flag that disables DPI scaling.
pub const LAYER_HIGH_DPI_AWARE: &'static str = "HIGHDPIAWARE";

/// The compatibility flag that disables fullscreen optimizations.
pub const LAYER_DISABLE_FSO: &'static str = "DISABLEDXMAXIMIZEDWINDOWEDMODE";

/// A change to one registry value.
#[derive(Debug, Clone)]
pub enum RegistryEdit {
    /// Remove the value.
    Delete,
    /// Write this text.
    Write(String),
}

/// The GPU preference value written for the executable: none for the
/// system default, else `GpuPreference=1;` (integrated) or
/// `GpuPreference=2;` (high performance).
pub fn gpu_preference_edit(pref: GpuPreference) -> (r: RegistryEdit)
    ensures
        pref is System ==> r is Delete,
        pref is Integrated ==> (r matches RegistryEdit::Write(v) && v@ == "GpuPreference=1;"@),
        pref is HighPerformance ==> (r matches RegistryEdit::Write(v) && v@ == "GpuPreference=2;"@),
{
    match pref {
        GpuPreference::System => RegistryEdit::Delete,
        GpuPreference::Integrated => RegistryEdit::Write(str_to_string("GpuPreference=1;")),
        GpuPreference::HighPerformance => RegistryEdit::Write(str_to_string("GpuPreference=2;")),
    }
}

/// `ts` without the token `t`.
pub open spec fn drop_token(ts: Seq<Seq<char>>, t: Seq<char>) -> Seq<Seq<char>>
    decreases ts.len(),
{
    if ts.len() == 0 {
        ts
    } else if ts.last() == t {
        drop_token(ts.drop_last(), t)
    } else {
        drop_token(ts.drop_last(), t).push(ts.last())
    }
}

/// Remove every `t`, then append it once when `on`.
pub open spec fn set_token(ts: Seq<Seq<char>>, t: Seq<char>, on: bool) -> Seq<Seq<char>> {
    if on {
        drop_token(ts, t).push(t)
    } else {
        drop_token(ts, t)
    }
}

/// The tokens of the `Layers` value after applying the two settings;
/// unknown tokens are kept in their order.
pub open spec fn layer_tokens(existing: Option<Seq<char>>, no_dpi_scaling: bool, no_fso: bool) -> Seq<Seq<char>> {
    let start = match existing {
        Some(v) => crate::text::words(v),
        None => Seq::empty(),
    };
    set_token(set_token(start, LAYER_HIGH_DPI_AWARE@, no_dpi_scaling), LAYER_DISABLE_FSO@, no_fso)
}

/// Tokens joined by single spaces.
pub open spec fn join_spaced(ts: Seq<Seq<char>>) -> Seq<char>
    decreases ts.len(),
{
    if ts.len() == 0 {
        Seq::empty()
    } else if ts.len() == 1 {
        ts[0]
    } else {
        join_spaced(ts.drop_last()) + seq![' '] + ts.last()
    }
}

/// Nothing but the per-user marker `~` is left.
pub open spec fn only_marker(ts: Seq<Seq<char>>) -> bool {
    forall|i: int| 0 <= i < ts.len() ==> ts[i] == seq!['~']
}

fn drop_token_exec(ts: Vec<Vec<char>>, t: &[char]) -> (r: Vec<Vec<char>>)
    ensures
        r@.len() == drop_token(ts@.map_values(|v: Vec<char>| v@), t@).len(),
        forall|k: int| 0 <= k < r@.len() ==> #[trigger] r@[k]@ == drop_token(
            ts@.map_values(|v: Vec<char>| v@),
            t@,
        )[k],
{
    let ghost src = ts@.map_values(|v: Vec<char>| v@);
    let mut out: Vec<Vec<char>> = Vec::new();
    let mut i: usize = 0;
    while i < ts.len()
        invariant
            i <= ts@.len(),
            src == ts@.map_values(|v: Vec<char>| v@),
            out@.len() == drop_token(src.take(i as int), t@).len(),
            forall|k: int| 0 <= k < out@.len() ==> #[trigger] out@[k]@ == drop_token(
                src.take(i as int),
                t@,
            )[k],
        decreases ts.len() - i,
    {
        proof {
            assert(src.take(i + 1).drop_last() =~= src.take(i as int));
            assert(src[i as int] == ts@[i as int]@);
        }
        if !crate::text::chars_eq(ts[i].as_slice(), t) {
            let mut copy: Vec<char> = Vec::new();
            copy.extend_from_slice(ts[i].as_slice());
            out.push(copy);
        }
        i += 1;
    }
    assert(src.take(ts@.len() as int) =~= src);
    out
}

/// The new `Layers` value for the executable: the existing tokens with
/// `HIGHDPIAWARE` and `DISABLEDXMAXIMIZEDWINDOWEDMODE` removed and appended
/// again when their setting is on; the value is deleted when nothing but
/// the `~` marker would remain.
pub fn layers_edit(existing: Option<&str>, disable_dpi_scaling: bool, disable_fso: bool) -> (r: RegistryEdit)
    ensures
        ({
            let ts = layer_tokens(crate::fastflags::opt_view(existing), disable_dpi_scaling, disable_fso);
            if only_marker(ts) {
                r is Delete
            } else {
                r matches RegistryEdit::Write(v) && v@ == join_spaced(ts)
            }
        }),
{
    let start: Vec<Vec<char>> = match existing {
        Some(v) => crate::text::words_exec(chars_of(v).as_slice()),
        None => Vec::new(),
    };
    let ghost start_view = match existing {
        Some(v) => crate::text::words(v@),
        None => Seq::<Seq<char>>::empty(),
    };
    assert(start@.map_values(|v: Vec<char>| v@) =~= start_view);
    let dpi = chars_of(LAYER_HIGH_DPI_AWARE);
    let fso = chars_of(LAYER_DISABLE_FSO);
    let mut a = drop_token_exec(start, dpi.as_slice());
    let ghost a_view = drop_token(start_view, dpi@);
    if disable_dpi_scaling {
        a.push(dpi);
    }
    let ghost a2 = set_token(start_view, dpi@, disable_dpi_scaling);
    assert(a@.map_values(|v: Vec<char>| v@) =~= a2);
    let mut b = drop_token_exec(a, fso.as_slice());
    if disable_fso {
        b.push(fso);
    }
    let ghost ts = layer_tokens(crate::fastflags::opt_view(existing), disable_dpi_scaling, disable_fso);
    assert(b@.map_values(|v: Vec<char>| v@) =~= ts);
    let mut all_marker = true;
    let mut i: usize = 0;
    while i < b.len()
        invariant
            i <= b@.len(),
            b@.map_values(|v: Vec<char>| v@) == ts,
            all_marker == (forall|k: int| 0 <= k < i ==> ts[k] == seq!['~']),
        decreases b.len() - i,
    {
        let is_marker = b[i].len() == 1 && b[i][0] == '~';
        proof {
            assert(ts[i as int] == b@[i as int]@);
            if is_marker {
                assert(b@[i as int]@ =~= seq!['~']);
            }
        }
        all_marker = all_marker && is_marker;
        i += 1;
    }
    if all_marker {
        return RegistryEdit::Delete;
    }
    let mut out = String::new();
    let mut j: usize = 0;
    while j < b.len()
        invariant
            j <= b@.len(),
            b@.map_values(|v: Vec<char>| v@) == ts,
            out@ == join_spaced(ts.take(j as int)),
        decreases b.len() - j,
    {
        proof {
            assert(ts.take(j + 1).drop_last() =~= ts.take(j as int));
            assert(ts[j as int] == b@[j as int]@);
        }
        if j > 0 {
            push_char(&mut out, ' ');
        }
        crate::text::push_chars(&mut out, b[j].as_slice());
        proof {
            if j == 0 {
                assert(ts.take(1) =~= seq![ts[0]]);
            }
        }
        j += 1;
    }
    assert(ts.take(b@.len() as int) =~= ts);
    RegistryEdit::Write(out)
}

// ---------------------------------------------------------------------------
// Mods
// ---------------------------------------------------------------------------

/// A mod entry as plain values: folder name, enabled, player, Studio.
pub type ModView = (Seq<char>, bool, bool, bool);

pub open spec fn mod_view(m: ModConfig) -> ModView {
    (m.file@, m.enabled, m.player, m.studio)
}

pub open spec fn mods_view(ms: Seq<ModConfig>) -> Seq<ModView> {
    ms.map_values(|m: ModConfig| mod_view(m))
}

pub open spec fn names_view(v: Seq<String>) -> Seq<Seq<char>> {
    v.map_values(|s: String| s@)
}

pub open spec fn has_entry(ms: Seq<ModView>, f: Seq<char>) -> bool {
    exists|i: int| 0 <= i < ms.len() && ms[i].0 == f
}

/// The entries after adding a default entry (enabled, for the player) for
/// each found folder that has none, in the order the folders were found.
pub open spec fn with_entries(ms: Seq<ModView>, found: Seq<Seq<char>>) -> Seq<ModView>
    decreases found.len(),
{
    if found.len() == 0 {
        ms
    } else {
        let prev = with_entries(ms, found.drop_last());
        if has_entry(prev, found.last()) {
            prev
        } else {
            prev.push((found.last(), true, true, false))
        }
    }
}

/// The entries whose folder was found, in order.
pub open spec fn kept_found(ms: Seq<ModView>, found: Seq<Seq<char>>) -> Seq<ModView>
    decreases ms.len(),
{
    if ms.len() == 0 {
        ms
    } else {
        let rest = kept_found(ms.drop_last(), found);
        if found.contains(ms.last().0) {
            rest.push(ms.last())
        } else {
            rest
        }
    }
}

proof fn lemma_with_entries_covers(ms: Seq<ModView>, found: Seq<Seq<char>>)
    ensures
        forall|f: Seq<char>| #[trigger] found.contains(f) ==> has_entry(with_entries(ms, found), f),
        forall|f: Seq<char>| has_entry(ms, f) ==> has_entry(with_entries(ms, found), f),
        forall|i: int|
            0 <= i < with_entries(ms, found).len() ==> #[trigger] with_entries(ms, found)[i].0 == ms[i].0
                || (i >= ms.len() && found.contains(with_entries(ms, found)[i].0)),
        with_entries(ms, found).len() >= ms.len(),
    decreases found.len(),
{
    if found.len() > 0 {
        let prev = with_entries(ms, found.drop_last());
        lemma_with_entries_covers(ms, found.drop_last());
        assert forall|f: Seq<char>| #[trigger] found.contains(f) implies has_entry(
            with_entries(ms, found),
            f,
        ) by {
            let k = choose|k: int| 0 <= k < found.len() && found[k] == f;
            if k < found.len() - 1 {
                assert(found.drop_last().contains(f)) by {
                    assert(found.drop_last()[k] == f);
                }
                let w = choose|w: int| 0 <= w < prev.len() && prev[w].0 == f;
                assert(with_entries(ms, found)[w] == prev[w]);
            } else if !has_entry(prev, f) {
                assert(with_entries(ms, found)[prev.len() as int].0 == f);
            }
        }
        assert forall|f: Seq<char>| has_entry(ms, f) implies has_entry(with_entries(ms, found), f) by {
            let w = choose|w: int| 0 <= w < prev.len() && prev[w].0 == f;
            assert(with_entries(ms, found)[w] == prev[w]);
        }
        assert forall|i: int| 0 <= i < with_entries(ms, found).len() implies #[trigger] with_entries(
            ms,
            found,
        )[i].0 == ms[i].0 || (i >= ms.len() && found.contains(with_entries(ms, found)[i].0)) by {
            if i < prev.len() {
                assert(with_entries(ms, found)[i] == prev[i]);
                if !(prev[i].0 == ms[i].0) {
                    let k = choose|k: int| 0 <= k < found.drop_last().len() && found.drop_last()[k]
                        == prev[i].0;
                    assert(found[k] == prev[i].0);
                }
            } else {
                assert(found[found.len() - 1] == found.last());
            }
        }
    }
}

proof fn lemma_kept_found(ms: Seq<ModView>, found: Seq<Seq<char>>)
    ensures
        forall|i: int| 0 <= i < kept_found(ms, found).len() ==> found.contains(#[trigger] kept_found(ms, found)[i].0),
        forall|f: Seq<char>| found.contains(f) && has_entry(ms, f) ==> has_entry(kept_found(ms, found), f),
        kept_found(ms, found).len() <= ms.len(),
    decreases ms.len(),
{
    if ms.len() > 0 {
        let rest = kept_found(ms.drop_last(), found);
        lemma_kept_found(ms.drop_last(), found);
        assert forall|f: Seq<char>| found.contains(f) && has_entry(ms, f) implies has_entry(
            kept_found(ms, found),
            f,
        ) by {
            let w = choose|w: int| 0 <= w < ms.len() && ms[w].0 == f;
            if w < ms.len() - 1 {
                assert(ms.drop_last()[w].0 == f);
                let v = choose|v: int| 0 <= v < rest.len() && rest[v].0 == f;
                assert(kept_found(ms, found)[v] == rest[v]);
            } else {
                assert(kept_found(ms, found)[rest.len() as int] == ms.last());
            }
        }
        assert forall|i: int| 0 <= i < kept_found(ms, found).len() implies found.contains(
            #[trigger] kept_found(ms, found)[i].0,
        ) by {
            if i < rest.len() {
                assert(kept_found(ms, found)[i] == rest[i]);
            }
        }
    }
}

proof fn lemma_with_entries_noop(ms: Seq<ModView>, found: Seq<Seq<char>>)
    requires
        forall|f: Seq<char>| #[trigger] found.contains(f) ==> has_entry(ms, f),
    ensures
        with_entries(ms, found) == ms,
    decreases found.len(),
{
    if found.len() > 0 {
        assert forall|f: Seq<char>| #[trigger] found.drop_last().contains(f) implies has_entry(ms, f) by {
            let k = choose|k: int| 0 <= k < found.drop_last().len() && found.drop_last()[k] == f;
            assert(found[k] == f);
            assert(found.contains(f));
        }
        lemma_with_entries_noop(ms, found.drop_last());
        assert(found.contains(found.last())) by {
            assert(found[found.len() - 1] == found.last());
        }
    }
}

proof fn lemma_kept_found_noop(ms: Seq<ModView>, found: Seq<Seq<char>>)
    requires
        forall|i: int| 0 <= i < ms.len() ==> found.contains(#[trigger] ms[i].0),
    ensures
        kept_found(ms, found) == ms,
    decreases ms.len(),
{
    if ms.len() > 0 {
        assert forall|i: int| 0 <= i < ms.drop_last().len() implies found.contains(
            #[trigger] ms.drop_last()[i].0,
        ) by {
            assert(ms.drop_last()[i] == ms[i]);
        }
        lemma_kept_found_noop(ms.drop_last(), found);
        assert(found.contains(ms[ms.len() - 1].0));
        assert(ms.drop_last().push(ms.last()) =~= ms);
    }
}

/// Syncing the mod list twice with the same folders changes nothing the
/// second time: after a sync every folder has an entry and every entry a
/// folder, so nothing is added or dropped.
pub proof fn law_sync_mods_idempotent(ms: Seq<ModView>, found: Seq<Seq<char>>)
    ensures
        ({
            let once = kept_found(with_entries(ms, found), found);
            &&& with_entries(once, found) == once
            &&& kept_found(with_entries(once, found), found) == once
        }),
{
    let added = with_entries(ms, found);
    let once = kept_found(added, found);
    lemma_with_entries_covers(ms, found);
    lemma_kept_found(added, found);
    lemma_with_entries_noop(once, found);
    lemma_kept_found_noop(once, found);
}

/// Whether the found folder `name` is to be copied: its entry exists, is
/// enabled, and targets the app being launched.
pub open spec fn mod_active(mods: Seq<ModConfig>, name: Seq<char>, studio: bool) -> bool {
    match crate::state::find_mod(mods, name) {
        Some(k) => mods[k].enabled && if studio { mods[k].studio } else { mods[k].player },
        None => false,
    }
}

/// Positions in `found` of the active folders, in order.
pub open spec fn active_positions(mods: Seq<ModConfig>, found: Seq<Seq<char>>, studio: bool) -> Seq<
    usize,
>
    decreases found.len(),
{
    if found.len() == 0 {
        Seq::empty()
    } else {
        let prev = active_positions(mods, found.drop_last(), studio);
        if mod_active(mods, found.last(), studio) {
            prev.push((found.len() - 1) as usize)
        } else {
            prev
        }
    }
}

fn contains_name(found: &[String], name: &str) -> (r: bool)
    ensures
        r == names_view(found@).contains(name@),
{
    let mut i: usize = 0;
    while i < found.len()
        invariant
            i <= found@.len(),
            forall|k: int| 0 <= k < i ==> found@[k]@ != name@,
        decreases found.len() - i,
    {
        if str_eq(found[i].as_str(), name) {
            assert(names_view(found@)[i as int] == name@);
            return true;
        }
        i += 1;
    }
    proof {
        if names_view(found@).contains(name@) {
            let k = choose|k: int| 0 <= k < names_view(found@).len() && names_view(found@)[k] == name@;
            assert(found@[k]@ == name@);
        }
    }
    false
}

impl State {
    /// Bring the mod list in line with the folders found on disk: an entry
    /// with default settings is added for each new folder, then entries
    /// whose folder is gone are dropped. Returns whether anything changed.
    pub fn sync_mods(&mut self, found: &[String]) -> (dirty: bool)
        ensures
            ({
                let added = with_entries(mods_view(old(self).mods@), names_view(found@));
                &&& mods_view(final(self).mods@) == kept_found(added, names_view(found@))
                &&& dirty == (added.len() != old(self).mods@.len() || kept_found(
                    added,
                    names_view(found@),
                ).len() != added.len())
            }),
            crate::state::same_but_mods(*final(self), *old(self)),
            forall|f: Seq<char>| #[trigger] names_view(found@).contains(f) ==> has_entry(mods_view(final(self).mods@), f),
            forall|i: int| 0 <= i < final(self).mods@.len() ==> names_view(found@).contains(
                #[trigger] final(self).mods@[i].file@,
            ),
    {
        let ghost fv = names_view(found@);
        let ghost start = mods_view(self.mods@);
        let n0 = self.mods.len();
        let mut i: usize = 0;
        while i < found.len()
            invariant
                i <= found@.len(),
                fv == names_view(found@),
                mods_view(self.mods@) == with_entries(start, fv.take(i as int)),
                crate::state::same_but_mods(*self, *old(self)),
            decreases found.len() - i,
        {
            proof {
                assert(fv.take(i + 1).drop_last() =~= fv.take(i as int));
                assert(fv.take(i + 1).last() == found@[i as int]@);
                crate::state::lemma_find_mod_from(self.mods@, found@[i as int]@, 0);
            }
            let ghost prev = self.mods@;
            if self.mod_index(found[i].as_str()).is_none() {
                let mut entry = ModConfig::default();
                entry.file = str_to_string(found[i].as_str());
                self.mods.push(entry);
                proof {
                    assert(!has_entry(mods_view(prev), found@[i as int]@)) by {
                        if has_entry(mods_view(prev), found@[i as int]@) {
                            let w = choose|w: int| 0 <= w < mods_view(prev).len() && mods_view(prev)[w].0 == found@[i as int]@;
                            assert(prev[w].file@ == found@[i as int]@);
                        }
                    }
                    assert(mods_view(self.mods@) =~= mods_view(prev).push((found@[i as int]@, true, true, false)));
                }
            } else {
                proof {
                    let k = crate::state::find_mod(prev, found@[i as int]@)->0;
                    assert(mods_view(prev)[k].0 == found@[i as int]@);
                }
            }
            i += 1;
        }
        assert(fv.take(found@.len() as int) =~= fv);
        let added_len = self.mods.len();
        let ghost added = mods_view(self.mods@);
        let mut kept: Vec<ModConfig> = Vec::new();
        let mut j: usize = 0;
        while j < self.mods.len()
            invariant
                j <= self.mods@.len(),
                fv == names_view(found@),
                added == mods_view(self.mods@),
                mods_view(kept@) == kept_found(added.take(j as int), fv),
            decreases self.mods.len() - j,
        {
            proof {
                assert(added.take(j + 1).drop_last() =~= added.take(j as int));
                assert(added.take(j + 1).last() == mod_view(self.mods@[j as int]));
            }
            if contains_name(found, self.mods[j].file.as_str()) {
                let ghost before = kept@;
                kept.push(self.mods[j].copy());
                assert(mods_view(kept@) =~= mods_view(before).push(mod_view(self.mods@[j as int])));
            }
            j += 1;
        }
        assert(added.take(added.len() as int) =~= added);
        let kept_len = kept.len();
        self.mods = kept;
        proof {
            lemma_with_entries_covers(start, fv);
            lemma_kept_found(added, fv);
            assert forall|f: Seq<char>| #[trigger] fv.contains(f) implies has_entry(mods_view(self.mods@), f) by {}
            assert forall|i: int| 0 <= i < self.mods@.len() implies fv.contains(
                #[trigger] self.mods@[i].file@,
            ) by {
                assert(mods_view(self.mods@)[i].0 == self.mods@[i].file@);
            }
        }
        added_len != n0 || kept_len != added_len
    }

    /// Positions in `found` of the folders whose entry is enabled for the
    /// app being launched (Studio when `studio`), in order.
    pub fn active_mods(&self, found: &[String], studio: bool) -> (r: Vec<usize>)
        ensures
            r@ == active_positions(self.mods@, names_view(found@), studio),
    {
        let ghost fv = names_view(found@);
        let mut out: Vec<usize> = Vec::new();
        let mut i: usize = 0;
        while i < found.len()
            invariant
                i <= found@.len(),
                fv == names_view(found@),
                out@ == active_positions(self.mods@, fv.take(i as int), studio),
            decreases found.len() - i,
        {
            proof {
                assert(fv.take(i + 1).drop_last() =~= fv.take(i as int));
                assert(fv.take(i + 1).last() == found@[i as int]@);
            }
            let active = match self.mod_entry(found[i].as_str()) {
                Some(e) => e.enabled && if studio { e.studio } else { e.player },
                None => false,
            };
            if active {
                out.push(i);
            }
            i += 1;
        }
        assert(fv.take(found@.len() as int) =~= fv);
        out
    }
}

// ---------------------------------------------------------------------------
// Housekeeping
// ---------------------------------------------------------------------------

/// An old version directory is removed when it is neither the active
/// version nor the static directory and looks like a Roblox version.
pub open spec fn prunes_version(name: Seq<char>, keep: Seq<char>) -> bool {
    name != keep && name != STATIC_VERSION_DIR@ && starts_with(name, "version-"@)
}

/// Whether the version directory `name` is to be deleted.
pub fn should_prune_version(name: &str, keep: &str) -> (r: bool)
    ensures
        r == prunes_version(name@, keep@),
{
    if str_eq(name, keep) || str_eq(name, STATIC_VERSION_DIR) {
        return false;
    }
    starts_with_str(chars_of(name).as_slice(), "version-")
}

/// The versions the two distribution records hold installed.
pub fn live_versions(player: &DistributionState, studio: &DistributionState) -> (r: Vec<String>)
    ensures
        names_view(r@) == (if player.version_guid@.len() > 0 {
            seq![player.version_guid@]
        } else {
            Seq::empty()
        }) + (if studio.version_guid@.len() > 0 {
            seq![studio.version_guid@]
        } else {
            Seq::empty()
        }),
{
    let mut out: Vec<String> = Vec::new();
    if player.is_installed() {
        out.push(str_to_string(player.version_guid.as_str()));
    }
    if studio.is_installed() {
        out.push(str_to_string(studio.version_guid.as_str()));
    }
    assert(names_view(out@) =~= (if player.version_guid@.len() > 0 {
        seq![player.version_guid@]
    } else {
        Seq::empty()
    }) + (if studio.version_guid@.len() > 0 {
        seq![studio.version_guid@]
    } else {
        Seq::empty()
    }));
    out
}

/// Whether the staged download directory `name` is to be deleted: it
/// belongs neither to the active version nor to a live one.
pub fn should_prune_staged(name: &str, keep: &str, live: &[String]) -> (r: bool)
    ensures
        r == (name@ != keep@ && !names_view(live@).contains(name@)),
{
    !str_eq(name, keep) && !contains_name(live, name)
}

// ---------------------------------------------------------------------------
// Extraction
// ---------------------------------------------------------------------------

/// Where a zip entry is written: under `dest_root` at its enclosed path
/// (the entry's path when it stays inside the folder), or an error naming
/// the entry when it would escape.
pub fn entry_destination(dest_root: &str, enclosed: Option<&str>, entry_name: &str) -> (r: Result<
    String,
    RedStrapError,
>)
    ensures
        match enclosed {
            Some(rel) => r matches Ok(p) && p@ == crate::paths::joined(dest_root@, rel@),
            None => r matches Err(e) && e matches RedStrapError::Extraction(m) && m@ == "zip entry '"@
                + entry_name@ + "' would escape the install folder"@,
        },
{
    match enclosed {
        Some(rel) => Ok(crate::paths::join_path(dest_root, rel)),
        None => {
            let mut m = str_to_string("zip entry '");
            push_str(&mut m, entry_name);
            push_str(&mut m, "' would escape the install folder");
            Err(RedStrapError::Extraction(m))
        },
    }
}

/// The error for a package archive without entries.
pub fn empty_archive(zip_path: &str) -> (r: RedStrapError)
    ensures
        r matches RedStrapError::Extraction(m) && m@ == zip_path@ + " is empty"@,
{
    let mut m = str_to_string(zip_path);
    push_str(&mut m, " is empty");
    RedStrapError::Extraction(m)
}

} // verus!
