//! Application state that Red Strap manages itself: pending reinstall flag,
//! per-mod enablement, playtime totals, UI memory, and the installed-version
//! record of each Roblox distribution.
//!
//! Reading and writing the JSON files happens at the edge of the program;
//! this module holds the records and the rules applied to them.

use vstd::prelude::*;

use crate::consts::SCHEMA_VERSION;
use crate::text::{str_eq, trim, trim_str};

verus! {

// ---------------------------------------------------------------------------
// Mod configuration
// ---------------------------------------------------------------------------

/// Per-mod enablement and install targets, keyed by mod folder name.
#[derive(Debug, Clone, PartialEq, Eq)]
pub struct ModConfig {
    pub file: String,
    pub enabled: bool,
    pub player: bool,
    pub studio: bool,
}

impl Default for ModConfig {
    fn default() -> (r: Self)
        ensures
            r.file@ == Seq::<char>::empty(),
            r.enabled,
            r.player,
            !r.studio,
    {
        ModConfig { file: String::new(), enabled: true, player: true, studio: false }
    }
}

impl ModConfig {
    /// Field-by-field copy whose result is known to equal the original.
    pub fn copy(&self) -> (r: ModConfig)
        ensures
            r == *self,
    {
        ModConfig {
            file: self.file.clone(),
            enabled: self.enabled,
            player: self.player,
            studio: self.studio,
        }
    }
}

// ---------------------------------------------------------------------------
// Global state
// ---------------------------------------------------------------------------

/// `State.json`: UI memory, pending reinstall flag, mods, playtime.
#[derive(Debug, Clone)]
pub struct State {
    pub schema_version: u32,
    pub last_page: String,
    pub force_reinstall: bool,
    pub mods: Vec<ModConfig>,
    pub playtime_total_secs: u64,
    pub skipped_update_version: String,
}

impl Default for State {
    fn default() -> (r: Self)
        ensures
            r.schema_version == SCHEMA_VERSION,
            r.last_page@ == Seq::<char>::empty(),
            !r.force_reinstall,
            r.mods@ == Seq::<ModConfig>::empty(),
            r.playtime_total_secs == 0,
            r.skipped_update_version@ == Seq::<char>::empty(),
    {
        State {
            schema_version: SCHEMA_VERSION,
            last_page: String::new(),
            force_reinstall: false,
            mods: Vec::new(),
            playtime_total_secs: 0,
            skipped_update_version: String::new(),
        }
    }
}

/// Index of the first entry whose folder name is `file`, searching from `i`.
pub open spec fn find_mod_from(mods: Seq<ModConfig>, file: Seq<char>, i: int) -> Option<int>
    decreases mods.len() - i,
{
    if i < 0 || i >= mods.len() {
        None
    } else if mods[i].file@ == file {
        Some(i)
    } else {
        find_mod_from(mods, file, i + 1)
    }
}

/// Index of the first entry whose folder name is `file`.
pub open spec fn find_mod(mods: Seq<ModConfig>, file: Seq<char>) -> Option<int> {
    find_mod_from(mods, file, 0)
}

/// The entries whose folder name is not blank, in their order.
pub open spec fn named_mods(mods: Seq<ModConfig>) -> Seq<ModConfig>
    decreases mods.len(),
{
    if mods.len() == 0 {
        mods
    } else {
        let rest = named_mods(mods.drop_last());
        if trim(mods.last().file@).len() > 0 {
            rest.push(mods.last())
        } else {
            rest
        }
    }
}

/// Everything but the mod list is the same in both states.
pub open spec fn same_but_mods(a: State, b: State) -> bool {
    &&& a.schema_version == b.schema_version
    &&& a.last_page == b.last_page
    &&& a.force_reinstall == b.force_reinstall
    &&& a.playtime_total_secs == b.playtime_total_secs
    &&& a.skipped_update_version == b.skipped_update_version
}

/// What `State::ensure_mod` does: nothing when an entry for `file` exists,
/// else it appends an entry with default settings named `file`.
pub open spec fn ensured_mod(before: State, after: State, file: Seq<char>) -> bool {
    &&& same_but_mods(after, before)
    &&& find_mod(before.mods@, file) is Some ==> after.mods@ == before.mods@
    &&& find_mod(before.mods@, file) is None ==> {
        &&& after.mods@.len() == before.mods@.len() + 1
        &&& after.mods@.drop_last() == before.mods@
        &&& after.mods@.last().file@ == file
        &&& after.mods@.last().enabled
        &&& after.mods@.last().player
        &&& !after.mods@.last().studio
    }
}

pub proof fn lemma_find_mod_from(mods: Seq<ModConfig>, file: Seq<char>, i: int)
    requires
        0 <= i <= mods.len(),
    ensures
        match find_mod_from(mods, file, i) {
            Some(k) => i <= k < mods.len() && mods[k].file@ == file && forall|j: int|
                i <= j < k ==> mods[j].file@ != file,
            None => forall|j: int| i <= j < mods.len() ==> mods[j].file@ != file,
        },
    decreases mods.len() - i,
{
    if i < mods.len() {
        lemma_find_mod_from(mods, file, i + 1);
    }
}

/// After `ensure_mod` an entry for the folder exists, and a second
/// `ensure_mod` for the same folder changes nothing.
pub proof fn law_ensure_mod_idempotent(before: State, after: State, file: Seq<char>)
    requires
        ensured_mod(before, after, file),
    ensures
        find_mod(after.mods@, file) is Some,
        ensured_mod(after, after, file),
{
    lemma_find_mod_from(before.mods@, file, 0);
    lemma_find_mod_from(after.mods@, file, 0);
    if find_mod(before.mods@, file) is None {
        let n = before.mods@.len() as int;
        assert(after.mods@[n] == after.mods@.last());
        assert forall|j: int| 0 <= j < n implies after.mods@[j] == before.mods@[j] by {
            assert(after.mods@.drop_last()[j] == after.mods@[j]);
        }
    } else {
        let k = find_mod(before.mods@, file)->0;
        assert(after.mods@[k].file@ == file);
    }
}

impl State {
    /// Finish loading a state read from disk: a missing schema version is
    /// set to the current one and entries without a folder name are
    /// dropped. The flag telling whether the file was corrupt passes through.
    pub fn load(state: State, corrupted: bool) -> (r: (State, bool))
        ensures
            r.1 == corrupted,
            r.0.schema_version == (if state.schema_version == 0 {
                SCHEMA_VERSION
            } else {
                state.schema_version
            }),
            r.0.mods@ == named_mods(state.mods@),
            r.0.last_page == state.last_page,
            r.0.force_reinstall == state.force_reinstall,
            r.0.playtime_total_secs == state.playtime_total_secs,
            r.0.skipped_update_version == state.skipped_update_version,
    {
        let mut state = state;
        if state.schema_version == 0 {
            state.schema_version = SCHEMA_VERSION;
        }
        let ghost old_mods = state.mods@;
        let mut kept: Vec<ModConfig> = Vec::new();
        let n = state.mods.len();
        let mut i: usize = 0;
        while i < n
            invariant
                n == old_mods.len(),
                state.mods@ == old_mods,
                i <= n,
                kept@ == named_mods(old_mods.take(i as int)),
            decreases n - i,
        {
            let m = state.mods[i].copy();
            let t = trim_str(m.file.as_str());
            assert(old_mods.take(i + 1).drop_last() == old_mods.take(i as int));
            if t.len() > 0 {
                kept.push(m);
            }
            i += 1;
        }
        assert(old_mods.take(n as int) == old_mods);
        state.mods = kept;
        (state, corrupted)
    }

    /// Ensure a config entry exists for a mod folder: an entry with default
    /// settings is appended when none has that name.
    pub fn ensure_mod(&mut self, file: &str)
        ensures
            ensured_mod(*old(self), *final(self), file@),
    {
        if self.mod_index(file).is_none() {
            let mut entry = ModConfig::default();
            entry.file = file.to_owned();
            self.mods.push(entry);
            assert(self.mods@.drop_last() =~= old(self).mods@);
        }
    }

    /// Position of the config entry for a mod folder.
    pub fn mod_index(&self, file: &str) -> (r: Option<usize>)
        ensures
            match find_mod(self.mods@, file@) {
                Some(k) => 0 <= k < self.mods@.len() && r is Some && r->0 == k
                    && self.mods@[k].file@ == file@,
                None => r is None,
            },
    {
        let n = self.mods.len();
        let mut i: usize = 0;
        while i < n
            invariant
                n == self.mods@.len(),
                i <= n,
                forall|j: int| 0 <= j < i ==> self.mods@[j].file@ != file@,
            decreases n - i,
        {
            if str_eq(self.mods[i].file.as_str(), file) {
                proof {
                    lemma_find_mod_from(self.mods@, file@, 0);
                }
                return Some(i);
            }
            i += 1;
        }
        proof {
            lemma_find_mod_from(self.mods@, file@, 0);
        }
        None
    }

    /// Look up the config entry for a mod folder, if present.
    pub fn mod_entry_mut(&mut self, file: &str) -> (r: Option<&mut ModConfig>)
        ensures
            match find_mod(old(self).mods@, file@) {
                Some(k) => {
                    &&& r is Some
                    &&& *r->0 == old(self).mods@[k]
                    &&& same_but_mods(*final(self), *old(self))
                    &&& final(self).mods@ == old(self).mods@.update(k, *final(r->0))
                },
                None => r is None && *final(self) == *old(self),
            },
    {
        match self.mod_index(file) {
            Some(i) => Some(&mut self.mods[i]),
            None => None,
        }
    }

    /// Immutable counterpart of [`State::mod_entry_mut`].
    pub fn mod_entry(&self, file: &str) -> (r: Option<&ModConfig>)
        ensures
            match find_mod(self.mods@, file@) {
                Some(k) => r is Some && *r->0 == self.mods@[k],
                None => r is None,
            },
    {
        match self.mod_index(file) {
            Some(i) => Some(&self.mods[i]),
            None => None,
        }
    }
}

// ---------------------------------------------------------------------------
// Distribution state (one file per Roblox app)
// ---------------------------------------------------------------------------

/// The signature recorded for the package `name`, searching from `i`.
pub open spec fn hash_lookup_from(h: Seq<(String, String)>, name: Seq<char>, i: int) -> Option<
    Seq<char>,
>
    decreases h.len() - i,
{
    if i < 0 || i >= h.len() {
        None
    } else if h[i].0@ == name {
        Some(h[i].1@)
    } else {
        hash_lookup_from(h, name, i + 1)
    }
}

/// The signature recorded for the package `name`.
pub open spec fn hash_lookup(h: Seq<(String, String)>, name: Seq<char>) -> Option<Seq<char>> {
    hash_lookup_from(h, name, 0)
}

/// No package name is recorded twice.
pub open spec fn distinct_names(h: Seq<(String, String)>) -> bool {
    forall|i: int, j: int| 0 <= i < j < h.len() ==> h[i].0@ != h[j].0@
}

pub proof fn lemma_hash_lookup_from(h: Seq<(String, String)>, name: Seq<char>, i: int)
    requires
        0 <= i <= h.len(),
    ensures
        (forall|j: int| i <= j < h.len() ==> h[j].0@ != name) ==> hash_lookup_from(h, name, i)
            is None,
        forall|k: int|
            i <= k < h.len() && h[k].0@ == name && (forall|j: int| i <= j < k ==> h[j].0@ != name)
                ==> hash_lookup_from(h, name, i) == Some(h[k].1@),
    decreases h.len() - i,
{
    if i < h.len() {
        lemma_hash_lookup_from(h, name, i + 1);
    }
}

/// Under distinct names, the entry at `k` is what a lookup of its name finds.
pub proof fn lemma_hash_lookup_at(h: Seq<(String, String)>, k: int)
    requires
        distinct_names(h),
        0 <= k < h.len(),
    ensures
        hash_lookup(h, h[k].0@) == Some(h[k].1@),
{
    lemma_hash_lookup_from(h, h[k].0@, 0);
}

/// Installed-version record for the player or Studio.
#[derive(Debug, Clone)]
pub struct DistributionState {
    /// Installed `version-<hash>` GUID, empty when never installed.
    pub version_guid: String,
    /// Downloaded package name and manifest signature, one entry per name.
    pub package_hashes: Vec<(String, String)>,
    /// Approximate on-disk size in bytes.
    pub size_bytes: u64,
}

impl Default for DistributionState {
    fn default() -> (r: Self)
        ensures
            r.version_guid@ == Seq::<char>::empty(),
            r.package_hashes@ == Seq::<(String, String)>::empty(),
            r.size_bytes == 0,
    {
        DistributionState { version_guid: String::new(), package_hashes: Vec::new(), size_bytes: 0 }
    }
}

impl DistributionState {
    /// No package name is recorded twice.
    pub open spec fn hashes_wf(&self) -> bool {
        distinct_names(self.package_hashes@)
    }

    /// True when a version was previously installed.
    pub fn is_installed(&self) -> (r: bool)
        ensures
            r == (self.version_guid@.len() > 0),
    {
        !self.version_guid.as_str().is_empty()
    }

    /// Position of the record for the package `name`.
    fn package_index(&self, name: &str) -> (r: Option<usize>)
        ensures
            match r {
                Some(k) => k < self.package_hashes@.len() && self.package_hashes@[k as int].0@
                    == name@ && forall|j: int| 0 <= j < k ==> self.package_hashes@[j].0@ != name@,
                None => forall|j: int|
                    0 <= j < self.package_hashes@.len() ==> self.package_hashes@[j].0@ != name@,
            },
    {
        let n = self.package_hashes.len();
        let mut i: usize = 0;
        while i < n
            invariant
                n == self.package_hashes@.len(),
                i <= n,
                forall|j: int| 0 <= j < i ==> self.package_hashes@[j].0@ != name@,
            decreases n - i,
        {
            if str_eq(self.package_hashes[i].0.as_str(), name) {
                return Some(i);
            }
            i += 1;
        }
        None
    }

    /// The signature recorded for the package `name`, if any.
    pub fn recorded_signature(&self, name: &str) -> (r: Option<&String>)
        ensures
            match r {
                Some(s) => hash_lookup(self.package_hashes@, name@) == Some(s@),
                None => hash_lookup(self.package_hashes@, name@) is None,
            },
    {
        proof {
            lemma_hash_lookup_from(self.package_hashes@, name@, 0);
        }
        match self.package_index(name) {
            Some(i) => Some(&self.package_hashes[i].1),
            None => None,
        }
    }

    /// Record `signature` for the package `name`, replacing an earlier one.
    pub fn record_package(&mut self, name: String, signature: String)
        requires
            old(self).hashes_wf(),
        ensures
            final(self).hashes_wf(),
            final(self).version_guid == old(self).version_guid,
            final(self).size_bytes == old(self).size_bytes,
            forall|n: Seq<char>|
                #![trigger hash_lookup(final(self).package_hashes@, n)]
                hash_lookup(final(self).package_hashes@, n) == if n == name@ {
                    Some(signature@)
                } else {
                    hash_lookup(old(self).package_hashes@, n)
                },
    {
        let ghost before = self.package_hashes@;
        let ghost nm = name@;
        let ghost sig = signature@;
        match self.package_index(name.as_str()) {
            Some(i) => {
                self.package_hashes.set(i, (name, signature));
                let ghost after = self.package_hashes@;
                assert forall|n: Seq<char>|
                    #![trigger hash_lookup(after, n)]
                    hash_lookup(after, n) == if n == nm {
                        Some(sig)
                    } else {
                        hash_lookup(before, n)
                    } by {
                    lemma_hash_lookup_from(after, n, 0);
                    lemma_hash_lookup_from(before, n, 0);
                    if n != nm {
                        assert forall|j: int| 0 <= j < after.len() && after[j].0@ == n implies
                            before[j] == after[j] by {}
                        if exists|k: int| 0 <= k < before.len() && before[k].0@ == n {
                            let k = choose|k: int| 0 <= k < before.len() && before[k].0@ == n;
                            lemma_hash_lookup_at(before, k);
                            assert(after[k] == before[k]);
                            assert(distinct_names(after)) by {
                                assert forall|a: int, b: int| 0 <= a < b < after.len() implies
                                    after[a].0@ != after[b].0@ by {
                                    assert(after[a].0@ == before[a].0@);
                                    assert(after[b].0@ == before[b].0@);
                                }
                            }
                            lemma_hash_lookup_at(after, k);
                        }
                    } else {
                        assert(after[i as int].0@ == nm);
                    }
                }
                assert(distinct_names(after)) by {
                    assert forall|a: int, b: int| 0 <= a < b < after.len() implies after[a].0@
                        != after[b].0@ by {
                        assert(after[a].0@ == before[a].0@);
                        assert(after[b].0@ == before[b].0@);
                    }
                }
            },
            None => {
                self.package_hashes.push((name, signature));
                let ghost after = self.package_hashes@;
                assert forall|n: Seq<char>|
                    #![trigger hash_lookup(after, n)]
                    hash_lookup(after, n) == if n == nm {
                        Some(sig)
                    } else {
                        hash_lookup(before, n)
                    } by {
                    lemma_hash_lookup_from(after, n, 0);
                    lemma_hash_lookup_from(before, n, 0);
                    if n == nm {
                        assert(after[before.len() as int].0@ == nm);
                    } else if exists|k: int| 0 <= k < before.len() && before[k].0@ == n {
                        let k = choose|k: int| 0 <= k < before.len() && before[k].0@ == n;
                        lemma_hash_lookup_at(before, k);
                        assert(after[k] == before[k]);
                        assert(distinct_names(after));
                        lemma_hash_lookup_at(after, k);
                    }
                }
            },
        }
    }
}

} // verus!
