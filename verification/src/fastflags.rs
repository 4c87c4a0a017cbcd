//! Fast-flag store (`ClientAppSettings.json`).
//!
//! Roblox reads `ClientSettings/ClientAppSettings.json` from its version
//! directory at startup. Values are stored as strings (`"True"`, `"4"`).
//! This module owns the working copy, the named-preset table used by the
//! Performance page, and bounded undo/redo history. Its behaviour is
//! specified by the model in `flagmodel`.

use std::collections::{BTreeMap, BTreeSet};

use vstd::prelude::*;

use crate::flagmodel::{
    edit, find_key_from, lemma_key_lt_asymmetric, lemma_key_lt_irreflexive,
    lemma_key_lt_total_eq, lemma_key_lt_transitive, fps_cap_value, insert_pos_from, key_lt, key_lt_from, lemma_edit_wf,
    lemma_find_key_from, lemma_insert_pos_from, lemma_snapshot_wf, lemma_undo_redo_wf,
    level_value, lookup, model_changed, model_mark_saved, model_redo, model_set,
    model_set_preset, model_set_preset_exclusive, model_set_preset_group, model_undo,
    preset_edits_from, preset_lookup, preset_lookup_from, preset_table, remove_entry, set_entry,
    snapshot, sorted, true_or_none, well_formed, Entries, FlagModel, FLAG_UNDO_CAPACITY,
};
use crate::foreign::{fields_view, json_object_fields, parse_json_object, ForeignValue, JsonField};
use crate::settings::{msaa_flag_value, MSAAMode, RenderingMode};
use crate::text::{
    chars_eq, chars_of, contains_sub, dec, dec_string, find_sub_exec, lower, lower_vec, push_str,
    starts_with, starts_with_exec, str_to_string, string_of, trim, trim_str,
};

verus! {

/// In-memory flag table with change tracking and undo/redo.
pub struct FlagStore {
    flags: Vec<(String, String)>,
    original: Vec<(String, String)>,
    undo: Vec<Vec<(String, String)>>,
    redo: Vec<Vec<(String, String)>>,
}

pub open spec fn entries_of(v: Seq<(String, String)>) -> Entries {
    v.map_values(|p: (String, String)| (p.0@, p.1@))
}

pub open spec fn stack_of(v: Seq<Vec<(String, String)>>) -> Seq<Entries> {
    v.map_values(|x: Vec<(String, String)>| entries_of(x@))
}

pub open spec fn opt_view(v: Option<&str>) -> Option<Seq<char>> {
    match v {
        Some(s) => Some(s@),
        None => None,
    }
}

impl View for FlagStore {
    type V = Entries;

    open spec fn view(&self) -> Entries {
        self.model().flags
    }
}

// ---------------------------------------------------------------------------
// Table helpers
// ---------------------------------------------------------------------------

fn clone_entries(v: &Vec<(String, String)>) -> (r: Vec<(String, String)>)
    ensures
        entries_of(r@) == entries_of(v@),
{
    let mut r: Vec<(String, String)> = Vec::new();
    let mut i: usize = 0;
    while i < v.len()
        invariant
            i <= v@.len(),
            entries_of(r@) == entries_of(v@.take(i as int)),
        decreases v.len() - i,
    {
        let a = v[i].0.clone();
        let b = v[i].1.clone();
        assert(a@ == v@[i as int].0@ && b@ == v@[i as int].1@);
        let ghost before = r@;
        r.push((a, b));
        assert(v@.take(i + 1) =~= v@.take(i as int).push(v@[i as int]));
        assert(entries_of(r@) =~= entries_of(before).push((v@[i as int].0@, v@[i as int].1@)));
        i += 1;
    }
    assert(v@.take(v@.len() as int) =~= v@);
    r
}

fn entries_eq(a: &Vec<(String, String)>, b: &Vec<(String, String)>) -> (r: bool)
    ensures
        r == (entries_of(a@) == entries_of(b@)),
{
    if a.len() != b.len() {
        assert(entries_of(a@).len() != entries_of(b@).len());
        return false;
    }
    let mut i: usize = 0;
    while i < a.len()
        invariant
            a@.len() == b@.len(),
            i <= a@.len(),
            forall|j: int| 0 <= j < i ==> entries_of(a@)[j] == entries_of(b@)[j],
        decreases a.len() - i,
    {
        if a[i].0 != b[i].0 || a[i].1 != b[i].1 {
            assert(entries_of(a@)[i as int] != entries_of(b@)[i as int]);
            return false;
        }
        i += 1;
    }
    assert(entries_of(a@) =~= entries_of(b@));
    true
}

pub(crate) fn key_less(a: &[char], b: &[char]) -> (r: bool)
    ensures
        r == key_lt(a@, b@),
{
    let mut i: usize = 0;
    loop
        invariant
            i <= a@.len(),
            i <= b@.len(),
            key_lt(a@, b@) == key_lt_from(a@, b@, i as int),
        decreases a@.len() - i,
    {
        if i >= a.len() {
            return i < b.len();
        }
        if i >= b.len() {
            return false;
        }
        if a[i] < b[i] {
            return true;
        }
        if a[i] > b[i] {
            return false;
        }
        i += 1;
    }
}

fn find_key(v: &Vec<(String, String)>, k: &[char]) -> (r: Option<usize>)
    ensures
        match r {
            Some(i) => find_key_from(entries_of(v@), k@, 0) == Some(i as int),
            None => find_key_from(entries_of(v@), k@, 0) is None,
        },
{
    let mut i: usize = 0;
    while i < v.len()
        invariant
            i <= v@.len(),
            find_key_from(entries_of(v@), k@, 0) == find_key_from(entries_of(v@), k@, i as int),
        decreases v.len() - i,
    {
        let name = chars_of(v[i].0.as_str());
        if chars_eq(name.as_slice(), k) {
            return Some(i);
        }
        i += 1;
    }
    None
}

fn insert_pos(v: &Vec<(String, String)>, k: &[char]) -> (r: usize)
    ensures
        r as int == insert_pos_from(entries_of(v@), k@, 0),
{
    let mut i: usize = 0;
    while i < v.len()
        invariant
            i <= v@.len(),
            insert_pos_from(entries_of(v@), k@, 0) == insert_pos_from(entries_of(v@), k@, i as int),
        decreases v.len() - i,
    {
        let name = chars_of(v[i].0.as_str());
        if !key_less(name.as_slice(), k) {
            return i;
        }
        i += 1;
    }
    i
}

fn set_entry_exec(v: &mut Vec<(String, String)>, k: &[char], val: &str)
    ensures
        entries_of(final(v)@) == set_entry(entries_of(old(v)@), k@, val@),
{
    let ghost e = entries_of(v@);
    let p = insert_pos(v, k);
    proof {
        lemma_insert_pos_from(e, k@, 0);
    }
    let pair = (string_of(k), str_to_string(val));
    if p < v.len() {
        let name = chars_of(v[p].0.as_str());
        if chars_eq(name.as_slice(), k) {
            v.set(p, pair);
            assert(entries_of(v@) =~= e.update(p as int, (k@, val@)));
            return;
        }
    }
    v.insert(p, pair);
    assert(entries_of(v@) =~= e.insert(p as int, (k@, val@)));
}

fn remove_entry_exec(v: &mut Vec<(String, String)>, k: &[char])
    ensures
        entries_of(final(v)@) == remove_entry(entries_of(old(v)@), k@),
{
    let ghost e = entries_of(v@);
    match find_key(v, k) {
        Some(i) => {
            proof {
                lemma_find_key_from(e, k@, 0);
            }
            v.remove(i);
            assert(entries_of(v@) =~= e.remove(i as int));
        },
        None => {},
    }
}

/// The named presets, mapped to real Roblox flag names.
pub fn presets() -> (r: Vec<(&'static str, &'static str)>)
    ensures
        r@.len() == preset_table().len(),
        forall|i: int|
            0 <= i < r@.len() ==> (#[trigger] r@[i]).0@ == preset_table()[i].0 && r@[i].1@
                == preset_table()[i].1,
{
    vec![
        ("Rendering.ManualFullscreen", "FFlagHandleAltEnterFullscreenManually"),
        ("Rendering.PauseVoxelizer", "DFFlagDebugPauseVoxelizer"),
        ("Rendering.DisableScaling", "DFFlagDisableDPIScale"),
        ("Rendering.TextureQuality.OverrideEnabled", "DFFlagTextureQualityOverrideEnabled"),
        ("Rendering.TextureQuality.Level", "DFIntTextureQualityOverride"),
        ("Rendering.FrmQuality", "DFIntDebugFRMQualityLevelOverride"),
        ("Rendering.LowPolyMeshes1", "DFIntCSGLevelOfDetailSwitchingDistance"),
        ("Rendering.LowPolyMeshes2", "DFIntCSGLevelOfDetailSwitchingDistanceL12"),
        ("Rendering.LowPolyMeshes3", "DFIntCSGLevelOfDetailSwitchingDistanceL23"),
        ("Rendering.LowPolyMeshes4", "DFIntCSGLevelOfDetailSwitchingDistanceL34"),
        ("Rendering.Mode.D3D11", "FFlagDebugGraphicsPreferD3D11"),
        ("Rendering.Mode.Vulkan", "FFlagDebugGraphicsPreferVulkan"),
        ("Rendering.Mode.OpenGL", "FFlagDebugGraphicsPreferOpenGL"),
        ("Graphic.GraySky", "FFlagDebugSkyGray"),
        ("Rendering.MSAA1", "FIntDebugForceMSAASamples"),
        ("Rendering.RemoveGrass1", "FIntFRMMinGrassDistance"),
        ("Rendering.RemoveGrass2", "FIntFRMMaxGrassDistance"),
        ("Rendering.RemoveGrass3", "FIntGrassMovementReducedMotionFactor"),
        ("Performance.FpsCap", "DFIntTaskSchedulerTargetFps"),
    ]
}

/// Look up the real flag name behind a preset key.
pub fn preset_flag(key: &str) -> (r: Option<&'static str>)
    ensures
        opt_view(r) == preset_lookup(key@),
{
    let table = presets();
    let k = chars_of(key);
    let mut i: usize = 0;
    while i < table.len()
        invariant
            table@.len() == preset_table().len(),
            forall|j: int|
                0 <= j < table@.len() ==> (#[trigger] table@[j]).0@ == preset_table()[j].0
                    && table@[j].1@ == preset_table()[j].1,
            k@ == key@,
            i <= table@.len(),
            preset_lookup(key@) == preset_lookup_from(key@, i as int),
        decreases table.len() - i,
    {
        let name = chars_of(table[i].0);
        if chars_eq(name.as_slice(), k.as_slice()) {
            return Some(table[i].1);
        }
        i += 1;
    }
    None
}

/// True when `flag` (case-insensitive) is managed by a preset.
pub fn is_preset_flag(flag: &str) -> (r: bool)
    ensures
        r == exists|i: int|
            0 <= i < preset_table().len() && lower(#[trigger] preset_table()[i].1) == lower(flag@),
{
    let table = presets();
    let wanted = lower_vec(chars_of(flag).as_slice());
    let mut i: usize = 0;
    while i < table.len()
        invariant
            table@.len() == preset_table().len(),
            forall|j: int|
                0 <= j < table@.len() ==> (#[trigger] table@[j]).0@ == preset_table()[j].0
                    && table@[j].1@ == preset_table()[j].1,
            wanted@ == lower(flag@),
            i <= table@.len(),
            forall|j: int| 0 <= j < i ==> lower(#[trigger] preset_table()[j].1) != lower(flag@),
        decreases table.len() - i,
    {
        let name = lower_vec(chars_of(table[i].1).as_slice());
        if chars_eq(name.as_slice(), wanted.as_slice()) {
            return true;
        }
        i += 1;
    }
    false
}

/// Every element of a set of names, as a list.
#[verifier::external_body]
fn set_elements(allow: &BTreeSet<String>) -> (r: Vec<String>)
    ensures
        forall|s: String| #[trigger] allow@.contains(s) <==> r@.contains(s),
{
    allow.iter().cloned().collect()
}

/// A name is on an allowlist when some member matches it ignoring ASCII
/// case.
pub open spec fn on_allowlist(allow: Set<String>, name: Seq<char>) -> bool {
    exists|s: String| #[trigger] allow.contains(s) && lower(s@) == lower(name)
}

/// The entries whose names are on the allowlist, in table order.
pub open spec fn kept_entries(e: Entries, allow: Set<String>) -> Entries
    decreases e.len(),
{
    if e.len() == 0 {
        e
    } else {
        let rest = kept_entries(e.drop_last(), allow);
        if on_allowlist(allow, e.last().0) {
            rest.push(e.last())
        } else {
            rest
        }
    }
}

proof fn lemma_kept_members(e: Entries, allow: Set<String>)
    ensures
        kept_entries(e, allow).len() <= e.len(),
        forall|i: int|
            0 <= i < kept_entries(e, allow).len() ==> exists|j: int|
                0 <= j < e.len() && e[j] == #[trigger] kept_entries(e, allow)[i],
    decreases e.len(),
{
    if e.len() > 0 {
        let p = e.drop_last();
        lemma_kept_members(p, allow);
        let k = kept_entries(e, allow);
        let rest = kept_entries(p, allow);
        assert forall|i: int| 0 <= i < k.len() implies exists|j: int|
            0 <= j < e.len() && e[j] == #[trigger] k[i] by {
            if i < rest.len() {
                let j = choose|j: int| 0 <= j < p.len() && p[j] == rest[i];
                assert(e[j] == k[i]);
            } else {
                assert(e[e.len() - 1] == k[i]);
            }
        }
    }
}

proof fn lemma_kept_sorted(e: Entries, allow: Set<String>)
    requires
        sorted(e),
    ensures
        sorted(kept_entries(e, allow)),
    decreases e.len(),
{
    if e.len() > 0 {
        let p = e.drop_last();
        assert(sorted(p));
        lemma_kept_sorted(p, allow);
        lemma_kept_members(p, allow);
        let rest = kept_entries(p, allow);
        if on_allowlist(allow, e.last().0) {
            assert forall|i: int| 0 <= i < rest.len() implies key_lt(#[trigger] rest[i].0, e.last().0) by {
                let j = choose|j: int| 0 <= j < p.len() && p[j] == rest[i];
                assert(key_lt(e[j].0, e[e.len() - 1].0));
            }
        }
    }
}

proof fn lemma_kept_full(e: Entries, allow: Set<String>)
    requires
        kept_entries(e, allow).len() == e.len(),
    ensures
        kept_entries(e, allow) == e,
    decreases e.len(),
{
    if e.len() > 0 {
        let p = e.drop_last();
        lemma_kept_members(p, allow);
        if !on_allowlist(allow, e.last().0) {
            assert(false);
        }
        lemma_kept_full(p, allow);
        assert(e =~= p.push(e.last()));
    }
}

pub open spec fn names_where(e: Entries, allow: Set<String>, keep: bool) -> Seq<Seq<char>>
    decreases e.len(),
{
    if e.len() == 0 {
        Seq::empty()
    } else {
        let rest = names_where(e.drop_last(), allow, keep);
        if on_allowlist(allow, e.last().0) == keep {
            rest.push(e.last().0)
        } else {
            rest
        }
    }
}

/// Lowered members of the allowlist.
fn lowered_allowlist(allow: &BTreeSet<String>) -> (r: Vec<Vec<char>>)
    ensures
        forall|name: Seq<char>|
            on_allowlist(allow@, name) <==> exists|i: int|
                0 <= i < r@.len() && (#[trigger] r@[i])@ == lower(name),
{
    let items = set_elements(allow);
    let mut r: Vec<Vec<char>> = Vec::new();
    let mut i: usize = 0;
    while i < items.len()
        invariant
            i <= items@.len(),
            r@.len() == i,
            forall|j: int| 0 <= j < i ==> (#[trigger] r@[j])@ == lower(items@[j]@),
        decreases items.len() - i,
    {
        let l = lower_vec(chars_of(items[i].as_str()).as_slice());
        r.push(l);
        i += 1;
    }
    assert forall|name: Seq<char>| on_allowlist(allow@, name) <==> exists|i: int|
        0 <= i < r@.len() && (#[trigger] r@[i])@ == lower(name) by {
        if on_allowlist(allow@, name) {
            let s = choose|s: String| #[trigger] allow@.contains(s) && lower(s@) == lower(name);
            assert(items@.contains(s));
            let j = choose|j: int| 0 <= j < items@.len() && items@[j] == s;
            assert(r@[j]@ == lower(name));
        }
        if exists|i: int| 0 <= i < r@.len() && (#[trigger] r@[i])@ == lower(name) {
            let j = choose|j: int| 0 <= j < r@.len() && (#[trigger] r@[j])@ == lower(name);
            assert(items@.contains(items@[j]));
            assert(allow@.contains(items@[j]));
        }
    }
    r
}

fn is_allowed(lowered: &Vec<Vec<char>>, name: &str) -> (r: bool)
    ensures
        r == exists|i: int| 0 <= i < lowered@.len() && (#[trigger] lowered@[i])@ == lower(name@),
{
    let l = lower_vec(chars_of(name).as_slice());
    let mut i: usize = 0;
    while i < lowered.len()
        invariant
            i <= lowered@.len(),
            l@ == lower(name@),
            forall|j: int| 0 <= j < i ==> (#[trigger] lowered@[j])@ != lower(name@),
        decreases lowered.len() - i,
    {
        if chars_eq(lowered[i].as_slice(), l.as_slice()) {
            return true;
        }
        i += 1;
    }
    false
}

/// The flag text of a JSON member value: strings as they are, numbers as
/// their text, booleans as `True`/`False`; other values are not flags.
pub open spec fn flag_text(v: JsonField) -> Option<Seq<char>> {
    match v {
        JsonField::Text(s) => Some(s),
        JsonField::Number(t, _) => Some(t),
        JsonField::Bool(b) => Some(if b { "True"@ } else { "False"@ }),
        JsonField::Other => None,
    }
}

/// The table read from a file's members: each member with a flag value and
/// a non-blank name is stored under its name, a later member replacing an
/// earlier one of the same name.
pub open spec fn flags_from_members(f: Seq<(Seq<char>, JsonField)>) -> Entries
    decreases f.len(),
{
    if f.len() == 0 {
        Seq::empty()
    } else {
        let prev = flags_from_members(f.drop_last());
        match flag_text(f.last().1) {
            Some(t) => if trim(f.last().0).len() > 0 {
                set_entry(prev, f.last().0, t)
            } else {
                prev
            },
            None => prev,
        }
    }
}

/// The text `serde_json::to_string_pretty` writes for a map of strings
/// holding `entries` (given in key order).
pub uninterp spec fn pretty_json_object(entries: Entries) -> Seq<char>;

/// `serde_json::to_string_pretty` on the map of `entries`; the contract
/// names its text, a function of the entries alone. Serializing a map of
/// strings cannot fail; the `{}` fallback is never taken.
#[verifier::external_body]
fn json_pretty_object(entries: &Vec<(String, String)>) -> (r: String)
    ensures
        r@ == pretty_json_object(entries_of(entries@)),
{
    let map: BTreeMap<&String, &String> = entries.iter().map(|(k, v)| (k, v)).collect();
    serde_json::to_string_pretty(&map).unwrap_or_else(|_| String::from("{}"))
}

impl FlagStore {
    /// The store as a model: table, saved baseline, undo and redo stacks.
    pub closed spec fn model(&self) -> FlagModel {
        FlagModel {
            flags: entries_of(self.flags@),
            saved: entries_of(self.original@),
            undo: stack_of(self.undo@),
            redo: stack_of(self.redo@),
        }
    }

    pub open spec fn wf(&self) -> bool {
        well_formed(self.model())
    }

    /// An empty store with no history.
    pub fn new() -> (r: FlagStore)
        ensures
            r.wf(),
            r.model() == (FlagModel {
                flags: Seq::empty(),
                saved: Seq::empty(),
                undo: Seq::empty(),
                redo: Seq::empty(),
            }),
    {
        let r = FlagStore { flags: Vec::new(), original: Vec::new(), undo: Vec::new(), redo: Vec::new() };
        assert(r.model().flags =~= Seq::empty());
        assert(r.model().saved =~= Seq::empty());
        assert(r.model().undo =~= Seq::empty());
        assert(r.model().redo =~= Seq::empty());
        r
    }

    /// A store whose table and saved baseline are `entries` (already in
    /// name order), with no history.
    pub fn from_sorted_entries(entries: Vec<(String, String)>) -> (r: FlagStore)
        requires
            sorted(entries_of(entries@)),
        ensures
            r.wf(),
            r.model() == (FlagModel {
                flags: entries_of(entries@),
                saved: entries_of(entries@),
                undo: Seq::empty(),
                redo: Seq::empty(),
            }),
    {
        let original = clone_entries(&entries);
        let r = FlagStore { flags: entries, original, undo: Vec::new(), redo: Vec::new() };
        assert(r.model().undo =~= Seq::empty());
        assert(r.model().redo =~= Seq::empty());
        r
    }

    /// Parse the text of a `ClientAppSettings.json` file. Strings are kept,
    /// numbers become their text, booleans become `True`/`False`; nulls,
    /// arrays, objects and members with a blank name are skipped. `None`
    /// when the text is not a JSON object.
    pub fn from_json(text: &str) -> (r: Option<FlagStore>)
        ensures
            match json_object_fields(text@) {
                Some(f) => r matches Some(s) && s.wf() && s.model() == (FlagModel {
                    flags: flags_from_members(f),
                    saved: flags_from_members(f),
                    undo: Seq::empty(),
                    redo: Seq::empty(),
                }),
                None => r is None,
            },
    {
        let fields = match parse_json_object(text) {
            Some(f) => f,
            None => return None,
        };
        let ghost fv = fields_view(fields@);
        let mut flags: Vec<(String, String)> = Vec::new();
        let mut i: usize = 0;
        while i < fields.len()
            invariant
                i <= fields@.len(),
                fv == fields_view(fields@),
                entries_of(flags@) == flags_from_members(fv.take(i as int)),
                sorted(entries_of(flags@)),
            decreases fields.len() - i,
        {
            proof {
                assert(fv.take(i + 1).drop_last() =~= fv.take(i as int));
                assert(fv.take(i + 1).last() == fv[i as int]);
            }
            let key = &fields[i].0;
            let text: Option<String> = match &fields[i].1 {
                ForeignValue::Text(s) => Some(str_to_string(s.as_str())),
                ForeignValue::Number { text, .. } => Some(str_to_string(text.as_str())),
                ForeignValue::Bool(b) => Some(str_to_string(if *b { "True" } else { "False" })),
                ForeignValue::Other => None,
            };
            proof {
                reveal_strlit("True");
                reveal_strlit("False");
            }
            match text {
                Some(t) => {
                    if trim_str(key.as_str()).len() > 0 {
                        let k = chars_of(key.as_str());
                        proof {
                            crate::flagmodel::lemma_set_entry(entries_of(flags@), k@, t@);
                        }
                        set_entry_exec(&mut flags, k.as_slice(), t.as_str());
                    }
                },
                None => {},
            }
            i += 1;
        }
        assert(fv.take(fields@.len() as int) =~= fv);
        Some(FlagStore::from_sorted_entries(flags))
    }

    /// Finish loading a flag file: `contents` is the file's text, `None`
    /// when it could not be read (a missing file gives an empty store). A
    /// file that is not a JSON object gives an empty store and `true`, so
    /// the caller can move the corrupt file aside.
    pub fn load(contents: Option<&str>) -> (r: (FlagStore, bool))
        ensures
            r.0.wf(),
            r.0.model().undo.len() == 0,
            r.0.model().redo.len() == 0,
            r.0.model().saved == r.0.model().flags,
            r.1 == (contents is Some && json_object_fields(contents->0@) is None),
            match contents {
                Some(t) => match json_object_fields(t@) {
                    Some(f) => r.0@ == flags_from_members(f),
                    None => r.0@.len() == 0,
                },
                None => r.0@.len() == 0,
            },
    {
        match contents {
            Some(t) => match FlagStore::from_json(t) {
                Some(s) => (s, false),
                None => (FlagStore::new(), true),
            },
            None => (FlagStore::new(), false),
        }
    }

    /// The file text for the current flags: a pretty-printed JSON object
    /// of string values, in name order.
    pub fn to_json(&self) -> (r: String)
        ensures
            r@ == pretty_json_object(self@),
    {
        json_pretty_object(&self.flags)
    }

    /// Mark the current content as the new "saved" baseline.
    pub fn mark_saved(&mut self)
        requires
            old(self).wf(),
        ensures
            final(self).wf(),
            final(self).model() == model_mark_saved(old(self).model()),
    {
        self.original = clone_entries(&self.flags);
    }

    /// True when the store differs from the last saved/loaded baseline.
    pub fn changed(&self) -> (r: bool)
        ensures
            r == model_changed(self.model()),
    {
        !entries_eq(&self.flags, &self.original)
    }

    pub fn len(&self) -> (r: usize)
        ensures
            r == self@.len(),
    {
        self.flags.len()
    }

    pub fn is_empty(&self) -> (r: bool)
        ensures
            r == (self@.len() == 0),
    {
        self.flags.len() == 0
    }

    /// The `(name, value)` pairs in sorted name order.
    pub fn iter(&self) -> (r: &[(String, String)])
        ensures
            entries_of(r@) == self@,
    {
        self.flags.as_slice()
    }

    /// Get a flag value, if present.
    pub fn get(&self, key: &str) -> (r: Option<&str>)
        ensures
            opt_view(r) == lookup(self@, key@),
    {
        let k = chars_of(key);
        match find_key(&self.flags, k.as_slice()) {
            Some(i) => {
                proof {
                    lemma_find_key_from(entries_of(self.flags@), key@, 0);
                }
                Some(self.flags[i].1.as_str())
            },
            None => None,
        }
    }

    /// Apply one edit to the table without touching the history.
    fn edit(&mut self, key: &str, value: Option<&str>)
        requires
            old(self).wf(),
        ensures
            final(self).wf(),
            final(self).model() == edit(old(self).model(), key@, opt_view(value)),
    {
        proof {
            lemma_edit_wf(self.model(), key@, opt_view(value));
        }
        let k = trim_str(key);
        if k.len() == 0 {
            return;
        }
        match value {
            Some(v) => set_entry_exec(&mut self.flags, k.as_slice(), v),
            None => remove_entry_exec(&mut self.flags, k.as_slice()),
        }
    }

    fn snapshot_undo(&mut self)
        requires
            old(self).wf(),
        ensures
            final(self).wf(),
            final(self).model() == snapshot(old(self).model()),
    {
        proof {
            lemma_snapshot_wf(self.model());
        }
        let ghost m = self.model();
        let n = self.undo.len();
        if n > 0 && entries_eq(&self.undo[n - 1], &self.flags) {
            return;
        }
        let c = clone_entries(&self.flags);
        self.undo.push(c);
        assert(stack_of(self.undo@) =~= m.undo.push(m.flags));
        if self.undo.len() > FLAG_UNDO_CAPACITY {
            self.undo.remove(0);
            assert(stack_of(self.undo@) =~= m.undo.push(m.flags).drop_first());
        }
        self.redo.clear();
        assert(stack_of(self.redo@) =~= Seq::<Entries>::empty());
    }

    /// Set a flag, or delete it when `value` is `None`.
    pub fn set(&mut self, key: &str, value: Option<&str>)
        requires
            old(self).wf(),
        ensures
            final(self).wf(),
            final(self).model() == model_set(old(self).model(), key@, opt_view(value)),
    {
        let k = trim_str(key);
        if k.len() == 0 {
            return;
        }
        self.snapshot_undo();
        self.edit(key, value);
    }

    /// Set a preset by preset key, or delete it when `value` is `None`.
    /// Unknown preset keys change nothing.
    pub fn set_preset(&mut self, preset_key: &str, value: Option<&str>)
        requires
            old(self).wf(),
        ensures
            final(self).wf(),
            final(self).model() == model_set_preset(old(self).model(), preset_key@, opt_view(value)),
    {
        if let Some(flag) = preset_flag(preset_key) {
            self.set(flag, value);
        }
    }

    /// Read a preset value by preset key.
    pub fn get_preset(&self, preset_key: &str) -> (r: Option<&str>)
        ensures
            opt_view(r) == match preset_lookup(preset_key@) {
                Some(flag) => lookup(self@, flag),
                None => None,
            },
    {
        match preset_flag(preset_key) {
            Some(flag) => self.get(flag),
            None => None,
        }
    }

    /// Edit every preset whose key starts with `prefix`: the ones that also
    /// start with `target` get `value`, the others are cleared.
    fn edit_presets(&mut self, prefix: &[char], target: &[char], value: Option<&str>)
        requires
            old(self).wf(),
        ensures
            final(self).wf(),
            final(self).model() == (FlagModel {
                flags: preset_edits_from(old(self)@, 0, prefix@, target@, opt_view(value)),
                ..old(self).model()
            }),
    {
        let table = presets();
        let ghost m0 = self.model();
        let mut i: usize = 0;
        while i < table.len()
            invariant
                table@.len() == preset_table().len(),
                forall|j: int|
                    0 <= j < table@.len() ==> (#[trigger] table@[j]).0@ == preset_table()[j].0
                        && table@[j].1@ == preset_table()[j].1,
                i <= table@.len(),
                self.wf(),
                self.model() == (FlagModel { flags: self.model().flags, ..m0 }),
                preset_edits_from(m0.flags, 0, prefix@, target@, opt_view(value))
                    == preset_edits_from(self.model().flags, i as int, prefix@, target@, opt_view(value)),
            decreases table.len() - i,
        {
            let name = chars_of(table[i].0);
            if starts_with_exec(name.as_slice(), prefix) {
                if starts_with_exec(name.as_slice(), target) {
                    self.edit(table[i].1, value);
                } else {
                    self.edit(table[i].1, None);
                }
            }
            i += 1;
        }
    }

    /// Set every preset whose key starts with `prefix` to `value`, as one
    /// undo step.
    pub fn set_preset_group(&mut self, prefix: &str, value: Option<&str>)
        requires
            old(self).wf(),
        ensures
            final(self).wf(),
            final(self).model() == model_set_preset_group(old(self).model(), prefix@, opt_view(value)),
    {
        self.snapshot_undo();
        let p = chars_of(prefix);
        self.edit_presets(p.as_slice(), p.as_slice(), value);
    }

    /// Within a preset group, set the matching `target` entry and clear the
    /// rest (used for mutually-exclusive rendering backends), as one undo
    /// step.
    pub fn set_preset_exclusive(&mut self, prefix: &str, target: &str, value: Option<&str>)
        requires
            old(self).wf(),
        ensures
            final(self).wf(),
            final(self).model() == model_set_preset_exclusive(
                old(self).model(),
                prefix@,
                target@,
                opt_view(value),
            ),
    {
        let mut full = str_to_string(prefix);
        push_str(&mut full, ".");
        push_str(&mut full, target);
        let full_prefix = chars_of(full.as_str());
        proof {
            reveal_strlit(".");
        }
        assert(full_prefix@ =~= prefix@ + seq!['.'] + target@);
        self.snapshot_undo();
        let p = chars_of(prefix);
        self.edit_presets(p.as_slice(), full_prefix.as_slice(), value);
    }

    /// Remove every flag not present in `allow` (case-insensitive), as one
    /// undo step. Returns the number of removed flags.
    pub fn retain_allowed(&mut self, allow: &BTreeSet<String>) -> (r: usize)
        requires
            old(self).wf(),
        ensures
            final(self).wf(),
            r == old(self)@.len() - kept_entries(old(self)@, allow@).len(),
            r == 0 ==> final(self).model() == old(self).model(),
            r > 0 ==> final(self).model() == (FlagModel {
                flags: kept_entries(old(self)@, allow@),
                ..snapshot(old(self).model())
            }),
    {
        let lowered = lowered_allowlist(allow);
        let ghost e = self@;
        let mut kept: Vec<(String, String)> = Vec::new();
        let mut i: usize = 0;
        while i < self.flags.len()
            invariant
                e == self@,
                i <= e.len(),
                self.flags@.len() == e.len(),
                entries_of(kept@) == kept_entries(e.take(i as int), allow@),
                forall|name: Seq<char>|
                    on_allowlist(allow@, name) <==> exists|j: int|
                        0 <= j < lowered@.len() && (#[trigger] lowered@[j])@ == lower(name),
            decreases self.flags.len() - i,
        {
            assert(e.take(i + 1).drop_last() =~= e.take(i as int));
            if is_allowed(&lowered, self.flags[i].0.as_str()) {
                let a = self.flags[i].0.clone();
                let b = self.flags[i].1.clone();
                let ghost before = kept@;
                kept.push((a, b));
                assert(entries_of(kept@) =~= entries_of(before).push(e[i as int]));
            }
            i += 1;
        }
        assert(e.take(e.len() as int) =~= e);
        proof {
            lemma_kept_members(e, allow@);
        }
        let removed = self.flags.len() - kept.len();
        if removed == 0 {
            proof {
                lemma_kept_full(e, allow@);
            }
            return 0;
        }
        proof {
            lemma_snapshot_wf(self.model());
            lemma_kept_sorted(e, allow@);
        }
        self.snapshot_undo();
        self.flags = kept;
        removed
    }

    /// Split flag names into (known, unknown) against an allowlist, each in
    /// table order.
    pub fn partition_by_allowlist(&self, allow: &BTreeSet<String>) -> (r: (Vec<String>, Vec<String>))
        ensures
            r.0@.map_values(|s: String| s@) == names_where(self@, allow@, true),
            r.1@.map_values(|s: String| s@) == names_where(self@, allow@, false),
    {
        let lowered = lowered_allowlist(allow);
        let ghost e = self@;
        let mut known: Vec<String> = Vec::new();
        let mut unknown: Vec<String> = Vec::new();
        let mut i: usize = 0;
        while i < self.flags.len()
            invariant
                e == self@,
                i <= e.len(),
                self.flags@.len() == e.len(),
                known@.map_values(|s: String| s@) == names_where(e.take(i as int), allow@, true),
                unknown@.map_values(|s: String| s@) == names_where(e.take(i as int), allow@, false),
                forall|name: Seq<char>|
                    on_allowlist(allow@, name) <==> exists|j: int|
                        0 <= j < lowered@.len() && (#[trigger] lowered@[j])@ == lower(name),
            decreases self.flags.len() - i,
        {
            assert(e.take(i + 1).drop_last() =~= e.take(i as int));
            let name = self.flags[i].0.clone();
            if is_allowed(&lowered, self.flags[i].0.as_str()) {
                known.push(name);
                assert(known@.map_values(|s: String| s@) =~= names_where(e.take(i as int), allow@, true).push(e[i as int].0));
            } else {
                unknown.push(name);
                assert(unknown@.map_values(|s: String| s@) =~= names_where(e.take(i as int), allow@, false).push(e[i as int].0));
            }
            i += 1;
        }
        assert(e.take(e.len() as int) =~= e);
        (known, unknown)
    }

    pub fn can_undo(&self) -> (r: bool)
        ensures
            r == (self.model().undo.len() > 0),
    {
        self.undo.len() > 0
    }

    pub fn can_redo(&self) -> (r: bool)
        ensures
            r == (self.model().redo.len() > 0),
    {
        self.redo.len() > 0
    }

    /// Go back to the table before the last recorded edit.
    pub fn undo(&mut self)
        requires
            old(self).wf(),
        ensures
            final(self).wf(),
            final(self).model() == model_undo(old(self).model()),
    {
        proof {
            lemma_undo_redo_wf(self.model());
        }
        let ghost m = self.model();
        if let Some(previous) = self.undo.pop() {
            let mut current = previous;
            std::mem::swap(&mut current, &mut self.flags);
            self.redo.push(current);
            assert(stack_of(self.undo@) =~= m.undo.drop_last());
            assert(stack_of(self.redo@) =~= m.redo.push(m.flags));
            if self.redo.len() > FLAG_UNDO_CAPACITY {
                self.redo.remove(0);
                assert(stack_of(self.redo@) =~= m.redo.push(m.flags).drop_first());
            }
        }
    }

    /// Re-apply the edit most recently undone.
    pub fn redo(&mut self)
        requires
            old(self).wf(),
        ensures
            final(self).wf(),
            final(self).model() == model_redo(old(self).model()),
    {
        proof {
            lemma_undo_redo_wf(self.model());
        }
        let ghost m = self.model();
        if let Some(next) = self.redo.pop() {
            let mut current = next;
            std::mem::swap(&mut current, &mut self.flags);
            self.undo.push(current);
            assert(stack_of(self.redo@) =~= m.redo.drop_last());
            assert(stack_of(self.undo@) =~= m.undo.push(m.flags));
            if self.undo.len() > FLAG_UNDO_CAPACITY {
                self.undo.remove(0);
                assert(stack_of(self.undo@) =~= m.undo.push(m.flags).drop_first());
            }
        }
    }
}

// ---------------------------------------------------------------------------
// Preset application helpers (used by the Performance page)
// ---------------------------------------------------------------------------

/// The table after choosing a rendering backend: its flag is set and its
/// siblings cleared; `Default` clears the whole group.
pub open spec fn rendering_mode_model(m: FlagModel, mode: RenderingMode) -> FlagModel {
    match mode {
        RenderingMode::Default => model_set_preset_group(m, "Rendering.Mode"@, None),
        RenderingMode::Vulkan => model_set_preset_exclusive(m, "Rendering.Mode"@, "Vulkan"@, Some("True"@)),
        RenderingMode::OpenGL => model_set_preset_exclusive(m, "Rendering.Mode"@, "OpenGL"@, Some("True"@)),
        RenderingMode::D3D11 => model_set_preset_exclusive(m, "Rendering.Mode"@, "D3D11"@, Some("True"@)),
    }
}

/// The table after setting the texture quality override (0 removes it).
pub open spec fn texture_quality_model(m: FlagModel, level: u8) -> FlagModel {
    model_set_preset(
        model_set_preset(m, "Rendering.TextureQuality.OverrideEnabled"@, true_or_none(level != 0)),
        "Rendering.TextureQuality.Level"@,
        level_value(level),
    )
}

/// The table after switching the low-poly mesh distances on or off.
pub open spec fn low_poly_meshes_model(m: FlagModel, enabled: bool) -> FlagModel {
    if enabled {
        model_set_preset(
            model_set_preset(
                model_set_preset(
                    model_set_preset(m, "Rendering.LowPolyMeshes1"@, Some("50"@)),
                    "Rendering.LowPolyMeshes2"@,
                    Some("100"@),
                ),
                "Rendering.LowPolyMeshes3"@,
                Some("200"@),
            ),
            "Rendering.LowPolyMeshes4"@,
            Some("300"@),
        )
    } else {
        model_set_preset_group(m, "Rendering.LowPolyMeshes"@, None)
    }
}

/// The table after switching grass removal on or off.
pub open spec fn remove_grass_model(m: FlagModel, enabled: bool) -> FlagModel {
    if enabled {
        model_set_preset(
            model_set_preset(
                model_set_preset(m, "Rendering.RemoveGrass1"@, Some("0"@)),
                "Rendering.RemoveGrass2"@,
                Some("0"@),
            ),
            "Rendering.RemoveGrass3"@,
            Some("0"@),
        )
    } else {
        model_set_preset_group(m, "Rendering.RemoveGrass"@, None)
    }
}

/// Alt+Enter fullscreen fix (`False` = let Red Strap handle it).
pub fn apply_alt_enter_fix(store: &mut FlagStore, enabled: bool)
    requires
        old(store).wf(),
    ensures
        final(store).wf(),
        final(store).model() == model_set_preset(
            old(store).model(),
            "Rendering.ManualFullscreen"@,
            if enabled {
                Some("False"@)
            } else {
                None
            },
        ),
{
    store.set_preset("Rendering.ManualFullscreen", if enabled {
        Some("False")
    } else {
        None
    });
}

/// FPS cap. `None` or zero removes the cap.
pub fn apply_fps_cap(store: &mut FlagStore, cap: Option<u32>)
    requires
        old(store).wf(),
    ensures
        final(store).wf(),
        final(store).model() == model_set_preset(old(store).model(), "Performance.FpsCap"@, fps_cap_value(cap)),
{
    match cap {
        Some(n) => {
            if n == 0 {
                store.set_preset("Performance.FpsCap", None);
            } else {
                let text = dec_string(n as u64);
                store.set_preset("Performance.FpsCap", Some(text.as_str()));
            }
        },
        None => store.set_preset("Performance.FpsCap", None),
    }
}

/// Rendering backend: the chosen backend flag is set and its siblings are
/// cleared; `Default` clears them all.
pub fn apply_rendering_mode(store: &mut FlagStore, mode: RenderingMode)
    requires
        old(store).wf(),
    ensures
        final(store).wf(),
        final(store).model() == rendering_mode_model(old(store).model(), mode),
{
    match mode {
        RenderingMode::Default => store.set_preset_group("Rendering.Mode", None),
        RenderingMode::Vulkan => store.set_preset_exclusive("Rendering.Mode", "Vulkan", Some("True")),
        RenderingMode::OpenGL => store.set_preset_exclusive("Rendering.Mode", "OpenGL", Some("True")),
        RenderingMode::D3D11 => store.set_preset_exclusive("Rendering.Mode", "D3D11", Some("True")),
    }
}

pub fn apply_msaa(store: &mut FlagStore, mode: MSAAMode)
    requires
        old(store).wf(),
    ensures
        final(store).wf(),
        final(store).model() == model_set_preset(old(store).model(), "Rendering.MSAA1"@, msaa_flag_value(mode)),
{
    store.set_preset("Rendering.MSAA1", mode.flag_value());
}

/// 0 disables; otherwise FRM quality level 1-21.
pub fn apply_frm_quality(store: &mut FlagStore, level: u8)
    requires
        old(store).wf(),
    ensures
        final(store).wf(),
        final(store).model() == model_set_preset(old(store).model(), "Rendering.FrmQuality"@, level_value(level)),
{
    if level == 0 {
        store.set_preset("Rendering.FrmQuality", None);
    } else {
        let text = dec_string(level as u64);
        store.set_preset("Rendering.FrmQuality", Some(text.as_str()));
    }
}

/// 0 disables; otherwise enables the texture quality override at `level`.
pub fn apply_texture_quality(store: &mut FlagStore, level: u8)
    requires
        old(store).wf(),
    ensures
        final(store).wf(),
        final(store).model() == texture_quality_model(old(store).model(), level),
{
    if level == 0 {
        store.set_preset("Rendering.TextureQuality.OverrideEnabled", None);
        store.set_preset("Rendering.TextureQuality.Level", None);
    } else {
        store.set_preset("Rendering.TextureQuality.OverrideEnabled", Some("True"));
        let text = dec_string(level as u64);
        store.set_preset("Rendering.TextureQuality.Level", Some(text.as_str()));
    }
}

/// Shorter level-of-detail switching distances (simpler meshes sooner), or
/// the whole group cleared.
pub fn apply_low_poly_meshes(store: &mut FlagStore, enabled: bool)
    requires
        old(store).wf(),
    ensures
        final(store).wf(),
        final(store).model() == low_poly_meshes_model(old(store).model(), enabled),
{
    if enabled {
        store.set_preset("Rendering.LowPolyMeshes1", Some("50"));
        store.set_preset("Rendering.LowPolyMeshes2", Some("100"));
        store.set_preset("Rendering.LowPolyMeshes3", Some("200"));
        store.set_preset("Rendering.LowPolyMeshes4", Some("300"));
    } else {
        store.set_preset_group("Rendering.LowPolyMeshes", None);
    }
}

/// Grass distances forced to zero, or the whole group cleared.
pub fn apply_remove_grass(store: &mut FlagStore, enabled: bool)
    requires
        old(store).wf(),
    ensures
        final(store).wf(),
        final(store).model() == remove_grass_model(old(store).model(), enabled),
{
    if enabled {
        store.set_preset("Rendering.RemoveGrass1", Some("0"));
        store.set_preset("Rendering.RemoveGrass2", Some("0"));
        store.set_preset("Rendering.RemoveGrass3", Some("0"));
    } else {
        store.set_preset_group("Rendering.RemoveGrass", None);
    }
}

pub fn apply_pause_voxelizer(store: &mut FlagStore, enabled: bool)
    requires
        old(store).wf(),
    ensures
        final(store).wf(),
        final(store).model() == model_set_preset(
            old(store).model(),
            "Rendering.PauseVoxelizer"@,
            true_or_none(enabled),
        ),
{
    store.set_preset("Rendering.PauseVoxelizer", if enabled {
        Some("True")
    } else {
        None
    });
}

pub fn apply_dpi_scaling(store: &mut FlagStore, disabled: bool)
    requires
        old(store).wf(),
    ensures
        final(store).wf(),
        final(store).model() == model_set_preset(
            old(store).model(),
            "Rendering.DisableScaling"@,
            true_or_none(disabled),
        ),
{
    store.set_preset("Rendering.DisableScaling", if disabled {
        Some("True")
    } else {
        None
    });
}

pub fn apply_gray_sky(store: &mut FlagStore, enabled: bool)
    requires
        old(store).wf(),
    ensures
        final(store).wf(),
        final(store).model() == model_set_preset(old(store).model(), "Graphic.GraySky"@, true_or_none(enabled)),
{
    store.set_preset("Graphic.GraySky", if enabled {
        Some("True")
    } else {
        None
    });
}

// ---------------------------------------------------------------------------
// Flag list rows
// ---------------------------------------------------------------------------

/// A row of the flag list: name, value, and whether the name is known.
pub type RowView = (Seq<char>, Seq<char>, bool);

pub open spec fn rows_view(v: Seq<(String, String, bool)>) -> Seq<RowView> {
    v.map_values(|r: (String, String, bool)| (r.0@, r.1@, r.2))
}

pub open spec fn allow_view(allow: Option<&BTreeSet<String>>) -> Option<Set<String>> {
    match allow {
        Some(a) => Some(a@),
        None => None,
    }
}

/// A name is known when no allowlist is loaded, or when the allowlist
/// holds it (ignoring ASCII case).
pub open spec fn flag_known(allow: Option<Set<String>>, name: Seq<char>) -> bool {
    match allow {
        None => true,
        Some(a) => on_allowlist(a, name),
    }
}

/// A flag is listed unless only unknown flags are wanted and it is known;
/// a non-empty query must occur in its name or value, ignoring ASCII case.
pub open spec fn row_listed(
    e: (Seq<char>, Seq<char>),
    query: Seq<char>,
    unknown_only: bool,
    allow: Option<Set<String>>,
) -> bool {
    !(unknown_only && flag_known(allow, e.0)) && (query.len() == 0 || contains_sub(lower(e.0), query)
        || contains_sub(lower(e.1), query))
}

/// The listed flags, in table order.
pub open spec fn listed_rows(
    e: Entries,
    query: Seq<char>,
    unknown_only: bool,
    allow: Option<Set<String>>,
) -> Seq<RowView>
    decreases e.len(),
{
    if e.len() == 0 {
        Seq::empty()
    } else {
        let rest = listed_rows(e.drop_last(), query, unknown_only, allow);
        if row_listed(e.last(), query, unknown_only, allow) {
            rest.push((e.last().0, e.last().1, flag_known(allow, e.last().0)))
        } else {
            rest
        }
    }
}

/// `r` placed after every row of `s` whose lower-cased name does not sort
/// after its own, and before the rows after it.
pub open spec fn insert_row(s: Seq<RowView>, r: RowView) -> Seq<RowView>
    decreases s.len(),
{
    if s.len() == 0 {
        seq![r]
    } else if key_lt(lower(r.0), lower(s.last().0)) {
        insert_row(s.drop_last(), r).push(s.last())
    } else {
        s.push(r)
    }
}

/// The rows stably sorted by lower-cased name: rows whose names differ
/// only in case keep their order.
pub open spec fn sort_rows(s: Seq<RowView>) -> Seq<RowView>
    decreases s.len(),
{
    if s.len() == 0 {
        s
    } else {
        insert_row(sort_rows(s.drop_last()), s.last())
    }
}

/// Rows in order of their lower-cased names.
pub open spec fn rows_sorted(s: Seq<RowView>) -> bool {
    forall|i: int, j: int| 0 <= i < j < s.len() ==> !key_lt(lower(s[j].0), lower(s[i].0))
}

proof fn lemma_not_lt_transitive(a: Seq<char>, b: Seq<char>, c: Seq<char>)
    requires
        !key_lt(b, a),
        !key_lt(c, b),
    ensures
        !key_lt(c, a),
{
    lemma_key_lt_total_eq(a, b);
    lemma_key_lt_total_eq(b, c);
    if key_lt(c, a) {
        if key_lt(a, b) && key_lt(b, c) {
            lemma_key_lt_transitive(a, b, c, 0);
            lemma_key_lt_asymmetric(a, c, 0);
        } else if key_lt(a, b) || key_lt(b, c) {
            lemma_key_lt_asymmetric(a, c, 0);
        } else {
            lemma_key_lt_irreflexive(a, 0);
        }
    }
}

proof fn lemma_insert_row_sorted(s: Seq<RowView>, r: RowView)
    requires
        rows_sorted(s),
    ensures
        rows_sorted(insert_row(s, r)),
        insert_row(s, r).to_multiset() =~= s.to_multiset().insert(r),
    decreases s.len(),
{
    broadcast use vstd::seq_lib::group_to_multiset_ensures;

    if s.len() == 0 {
        assert(Seq::<RowView>::empty().push(r) =~= seq![r]);
    } else {
        let d = s.drop_last();
        let last = s.last();
        assert(d.push(last) =~= s);
        if key_lt(lower(r.0), lower(last.0)) {
            assert(rows_sorted(d)) by {
                assert forall|i: int, j: int| 0 <= i < j < d.len() implies !key_lt(
                    lower(d[j].0),
                    lower(d[i].0),
                ) by {
                    assert(d[i] == s[i] && d[j] == s[j]);
                }
            }
            lemma_insert_row_sorted(d, r);
            let ins_d = insert_row(d, r);
            let ins = ins_d.push(last);
            assert(ins == insert_row(s, r));
            assert forall|i: int, j: int| 0 <= i < j < ins.len() implies !key_lt(
                lower(ins[j].0),
                lower(ins[i].0),
            ) by {
                if j < ins_d.len() {
                    assert(ins[i] == ins_d[i] && ins[j] == ins_d[j]);
                } else {
                    let x = ins_d[i];
                    assert(ins_d.contains(x));
                    assert(ins_d.to_multiset().count(x) > 0);
                    if x == r {
                        lemma_key_lt_asymmetric(lower(r.0), lower(last.0), 0);
                    } else {
                        assert(d.to_multiset().count(x) > 0);
                        assert(d.contains(x));
                        let k = choose|k: int| 0 <= k < d.len() && d[k] == x;
                        assert(s[k] == x && s[s.len() - 1] == last);
                    }
                }
            }
        } else {
            assert(insert_row(s, r) == s.push(r));
            let ins = s.push(r);
            assert forall|i: int, j: int| 0 <= i < j < ins.len() implies !key_lt(
                lower(ins[j].0),
                lower(ins[i].0),
            ) by {
                if j < s.len() {
                    assert(ins[i] == s[i] && ins[j] == s[j]);
                } else {
                    assert(ins[i] == s[i] && ins[j] == r);
                    if i < s.len() - 1 {
                        assert(!key_lt(lower(s[s.len() - 1].0), lower(s[i].0)));
                        lemma_not_lt_transitive(lower(s[i].0), lower(last.0), lower(r.0));
                    }
                }
            }
        }
    }
}

/// The flag list is in order of lower-cased names and lists each listed
/// flag as often as it occurs: its sort is a sorted permutation.
pub proof fn law_sorted_rows_are_ordered(s: Seq<RowView>)
    ensures
        rows_sorted(sort_rows(s)),
        sort_rows(s).to_multiset() =~= s.to_multiset(),
    decreases s.len(),
{
    broadcast use vstd::seq_lib::group_to_multiset_ensures;

    if s.len() > 0 {
        let d = s.drop_last();
        law_sorted_rows_are_ordered(d);
        lemma_insert_row_sorted(sort_rows(d), s.last());
        assert(d.push(s.last()) =~= s);
    }
}

proof fn lemma_insert_row_at(s: Seq<RowView>, r: RowView, p: int)
    requires
        0 <= p <= s.len(),
        forall|j: int| p <= j < s.len() ==> key_lt(lower(r.0), lower(#[trigger] s[j].0)),
        p > 0 ==> !key_lt(lower(r.0), lower(s[p - 1].0)),
    ensures
        insert_row(s, r) == s.insert(p, r),
    decreases s.len(),
{
    if s.len() == 0 {
        assert(s.insert(p, r) =~= seq![r]);
    } else if p == s.len() {
        assert(!key_lt(lower(r.0), lower(s.last().0)));
        assert(s.insert(p, r) =~= s.push(r));
    } else {
        let d = s.drop_last();
        assert(key_lt(lower(r.0), lower(s[s.len() - 1].0)));
        assert forall|j: int| p <= j < d.len() implies key_lt(lower(r.0), lower(#[trigger] d[j].0)) by {
            assert(d[j] == s[j]);
        }
        if p > 0 {
            assert(d[p - 1] == s[p - 1]);
        }
        lemma_insert_row_at(d, r, p);
        assert(d.insert(p, r).push(s.last()) =~= s.insert(p, r));
    }
}

fn contains_lower_text(text: &str, query: &[char]) -> (r: bool)
    ensures
        r == contains_sub(lower(text@), query@),
{
    let l = lower_vec(chars_of(text).as_slice());
    find_sub_exec(l.as_slice(), query, 0).is_some()
}

/// Put `row` into `out` where [`insert_row`] places it.
fn insert_row_exec(out: &mut Vec<(String, String, bool)>, row: (String, String, bool))
    ensures
        rows_view(final(out)@) == insert_row(rows_view(old(out)@), (row.0@, row.1@, row.2)),
{
    let key = lower_vec(chars_of(row.0.as_str()).as_slice());
    let ghost s = rows_view(out@);
    let ghost rv = (row.0@, row.1@, row.2);
    let mut p: usize = out.len();
    let mut searching = true;
    while searching && p > 0
        invariant
            p <= out@.len(),
            s == rows_view(out@),
            key@ == lower(rv.0),
            forall|j: int| p <= j < s.len() ==> key_lt(lower(rv.0), lower(#[trigger] s[j].0)),
            !searching ==> p > 0 && !key_lt(lower(rv.0), lower(s[p - 1].0)),
        decreases p + if searching { 1int } else { 0int },
    {
        let other = lower_vec(chars_of(out[p - 1].0.as_str()).as_slice());
        assert(s[p - 1].0 == out@[p - 1].0@);
        if key_less(key.as_slice(), other.as_slice()) {
            p = p - 1;
        } else {
            searching = false;
        }
    }
    proof {
        lemma_insert_row_at(s, rv, p as int);
    }
    out.insert(p, row);
    assert(rows_view(out@) =~= s.insert(p as int, rv));
}

impl FlagStore {
    /// The flag list as shown: the listed flags (see [`row_listed`]; the
    /// query is trimmed and lower-cased) with whether each name is known,
    /// stably sorted by lower-cased name.
    pub fn rows(&self, query: &str, unknown_only: bool, allow: Option<&BTreeSet<String>>) -> (r: Vec<
        (String, String, bool),
    >)
        ensures
            rows_view(r@) == sort_rows(
                listed_rows(self@, lower(trim(query@)), unknown_only, allow_view(allow)),
            ),
    {
        let q = lower_vec(trim_str(query).as_slice());
        let ghost qv = lower(trim(query@));
        let ghost av = allow_view(allow);
        let mut lowered: Option<Vec<Vec<char>>> = None;
        if let Some(a) = allow {
            let l = lowered_allowlist(a);
            lowered = Some(l);
            assert(lowered.unwrap() == l && allow.unwrap() == a);
            assert(forall|name: Seq<char>|
                on_allowlist(allow.unwrap()@, name) <==> exists|j: int|
                    0 <= j < lowered.unwrap()@.len() && (#[trigger] lowered.unwrap()@[j])@ == lower(name));
        }
        let ghost e = self@;
        let mut out: Vec<(String, String, bool)> = Vec::new();
        let mut i: usize = 0;
        while i < self.flags.len()
            invariant
                e == self@,
                i <= e.len(),
                self.flags@.len() == e.len(),
                q@ == qv,
                av == allow_view(allow),
                allow is None ==> lowered is None,
                allow is Some ==> lowered is Some,
                allow is Some ==> forall|name: Seq<char>|
                    on_allowlist(allow.unwrap()@, name) <==> exists|j: int|
                        0 <= j < lowered.unwrap()@.len() && (#[trigger] lowered.unwrap()@[j])@
                            == lower(name),
                rows_view(out@) == sort_rows(listed_rows(e.take(i as int), qv, unknown_only, av)),
            decreases self.flags.len() - i,
        {
            assert(e.take(i + 1).drop_last() =~= e.take(i as int));
            assert(e[i as int] == (self.flags@[i as int].0@, self.flags@[i as int].1@));
            let name = self.flags[i].0.as_str();
            let value = self.flags[i].1.as_str();
            let known = match &lowered {
                None => true,
                Some(l) => is_allowed(l, name),
            };
            let matches = q.len() == 0 || contains_lower_text(name, q.as_slice())
                || contains_lower_text(value, q.as_slice());
            if !(unknown_only && known) && matches {
                let ghost listed = listed_rows(e.take(i as int), qv, unknown_only, av);
                let ghost rv = (name@, value@, known);
                assert(listed.push(rv).drop_last() =~= listed);
                insert_row_exec(&mut out, (str_to_string(name), str_to_string(value), known));
            }
            i += 1;
        }
        assert(e.take(e.len() as int) =~= e);
        out
    }
}

} // verus!
