//! Mathematical model of the fast-flag table.
//!
//! A flag table is a sequence of `(name, value)` pairs kept in strictly
//! increasing name order (the order `BTreeMap<String, String>` iterates
//! in: UTF-8 byte order, which is the same as code-point order). Editing
//! operations, undo/redo history and the preset table are all specified
//! here as pure functions; `fastflags` proves its executable code against
//! them, and the laws at the end of the file are what the store promises.

use vstd::prelude::*;

use crate::text::{dec, lemma_trim_fixed, lower, starts_with, trim};

verus! {

pub type Entries = Seq<(Seq<char>, Seq<char>)>;

/// Maximum depth of each of the undo and redo stacks.
pub const FLAG_UNDO_CAPACITY: usize = 50;

// ---------------------------------------------------------------------------
// Name order
// ---------------------------------------------------------------------------

/// Lexicographic "less than" on names, looking at positions `i..`.
pub open spec fn key_lt_from(a: Seq<char>, b: Seq<char>, i: int) -> bool
    decreases a.len() - i,
{
    if i < 0 {
        false
    } else if i >= a.len() {
        i < b.len()
    } else if i >= b.len() {
        false
    } else if a[i] < b[i] {
        true
    } else if a[i] > b[i] {
        false
    } else {
        key_lt_from(a, b, i + 1)
    }
}

pub open spec fn key_lt(a: Seq<char>, b: Seq<char>) -> bool {
    key_lt_from(a, b, 0)
}

pub proof fn lemma_key_lt_irreflexive(a: Seq<char>, i: int)
    requires
        0 <= i,
    ensures
        !key_lt_from(a, a, i),
    decreases a.len() - i,
{
    if i < a.len() {
        lemma_key_lt_irreflexive(a, i + 1);
    }
}

pub proof fn lemma_key_lt_asymmetric(a: Seq<char>, b: Seq<char>, i: int)
    requires
        0 <= i,
        key_lt_from(a, b, i),
    ensures
        !key_lt_from(b, a, i),
    decreases a.len() - i,
{
    if i < a.len() && i < b.len() && a[i] == b[i] {
        lemma_key_lt_asymmetric(a, b, i + 1);
    }
}

pub proof fn lemma_key_lt_transitive(a: Seq<char>, b: Seq<char>, c: Seq<char>, i: int)
    requires
        0 <= i,
        key_lt_from(a, b, i),
        key_lt_from(b, c, i),
    ensures
        key_lt_from(a, c, i),
    decreases a.len() - i,
{
    if i < a.len() && i < b.len() && i < c.len() && a[i] == b[i] && b[i] == c[i] {
        lemma_key_lt_transitive(a, b, c, i + 1);
    }
}

/// Two names either compare one way or the other, or agree from `i` on.
pub proof fn lemma_key_lt_total(a: Seq<char>, b: Seq<char>, i: int)
    requires
        0 <= i <= a.len(),
        i <= b.len(),
    ensures
        key_lt_from(a, b, i) || key_lt_from(b, a, i) || (a.len() == b.len() && forall|j: int|
            i <= j < a.len() ==> a[j] == b[j]),
    decreases a.len() - i,
{
    if i < a.len() && i < b.len() && a[i] == b[i] {
        lemma_key_lt_total(a, b, i + 1);
    }
}

pub proof fn lemma_key_lt_total_eq(a: Seq<char>, b: Seq<char>)
    ensures
        key_lt(a, b) || key_lt(b, a) || a == b,
{
    lemma_key_lt_total(a, b, 0);
    if !key_lt(a, b) && !key_lt(b, a) {
        assert(a =~= b);
    }
}

// ---------------------------------------------------------------------------
// Tables
// ---------------------------------------------------------------------------

/// Names strictly increase along the table (so they are also unique).
pub open spec fn sorted(e: Entries) -> bool {
    forall|i: int, j: int| 0 <= i < j < e.len() ==> key_lt(#[trigger] e[i].0, #[trigger] e[j].0)
}

/// Index of the first entry at or after `i` named `k`.
pub open spec fn find_key_from(e: Entries, k: Seq<char>, i: int) -> Option<int>
    decreases e.len() - i,
{
    if i < 0 || i >= e.len() {
        None
    } else if e[i].0 == k {
        Some(i)
    } else {
        find_key_from(e, k, i + 1)
    }
}

/// Value stored under `k`.
pub open spec fn lookup(e: Entries, k: Seq<char>) -> Option<Seq<char>> {
    match find_key_from(e, k, 0) {
        Some(i) => Some(e[i].1),
        None => None,
    }
}

/// Index of the first entry at or after `i` whose name is not below `k`.
pub open spec fn insert_pos_from(e: Entries, k: Seq<char>, i: int) -> int
    decreases e.len() - i,
{
    if i < 0 {
        0
    } else if i >= e.len() {
        e.len() as int
    } else if !key_lt(e[i].0, k) {
        i
    } else {
        insert_pos_from(e, k, i + 1)
    }
}

/// Store `v` under `k`, keeping the order.
pub open spec fn set_entry(e: Entries, k: Seq<char>, v: Seq<char>) -> Entries {
    let p = insert_pos_from(e, k, 0);
    if p < e.len() && e[p].0 == k {
        e.update(p, (k, v))
    } else {
        e.insert(p, (k, v))
    }
}

/// Drop the entry named `k`, if any.
pub open spec fn remove_entry(e: Entries, k: Seq<char>) -> Entries {
    match find_key_from(e, k, 0) {
        Some(i) => e.remove(i),
        None => e,
    }
}

/// `FlagStore::set` on the table alone: the name is trimmed, an empty name
/// is ignored, `None` deletes.
pub open spec fn apply_set(e: Entries, key: Seq<char>, value: Option<Seq<char>>) -> Entries {
    let k = trim(key);
    if k.len() == 0 {
        e
    } else {
        match value {
            Some(v) => set_entry(e, k, v),
            None => remove_entry(e, k),
        }
    }
}

pub proof fn lemma_find_key_from(e: Entries, k: Seq<char>, i: int)
    requires
        0 <= i,
    ensures
        match find_key_from(e, k, i) {
            Some(j) => i <= j < e.len() && e[j].0 == k && forall|m: int| i <= m < j ==> e[m].0 != k,
            None => forall|m: int| i <= m < e.len() ==> e[m].0 != k,
        },
    decreases e.len() - i,
{
    if i < e.len() && e[i].0 != k {
        lemma_find_key_from(e, k, i + 1);
    }
}

pub proof fn lemma_insert_pos_from(e: Entries, k: Seq<char>, i: int)
    requires
        0 <= i <= e.len(),
    ensures
        i <= insert_pos_from(e, k, i) <= e.len(),
        forall|m: int| i <= m < insert_pos_from(e, k, i) ==> key_lt(#[trigger] e[m].0, k),
        insert_pos_from(e, k, i) < e.len() ==> !key_lt(e[insert_pos_from(e, k, i)].0, k),
    decreases e.len() - i,
{
    if i < e.len() && key_lt(e[i].0, k) {
        lemma_insert_pos_from(e, k, i + 1);
    }
}

/// In a sorted table, `lookup` finds exactly the stored pairs.
pub proof fn lemma_lookup_sorted(e: Entries, k: Seq<char>)
    requires
        sorted(e),
    ensures
        lookup(e, k) is Some <==> exists|i: int| 0 <= i < e.len() && #[trigger] e[i].0 == k,
        forall|i: int| 0 <= i < e.len() && #[trigger] e[i].0 == k ==> lookup(e, k) == Some(e[i].1),
{
    lemma_find_key_from(e, k, 0);
    assert forall|i: int| 0 <= i < e.len() && #[trigger] e[i].0 == k implies lookup(e, k) == Some(
        e[i].1,
    ) by {
        let j = find_key_from(e, k, 0).unwrap();
        if j < i {
            assert(key_lt(e[j].0, e[i].0));
            lemma_key_lt_irreflexive(k, 0);
        } else if i < j {
            assert(e[i].0 != k);
        }
    }
}

/// Storing a value keeps the table sorted, makes the value visible under
/// its name, and leaves every other name as it was.
pub proof fn lemma_set_entry(e: Entries, k: Seq<char>, v: Seq<char>)
    requires
        sorted(e),
    ensures
        sorted(set_entry(e, k, v)),
        lookup(set_entry(e, k, v), k) == Some(v),
        forall|o: Seq<char>| o != k ==> #[trigger] lookup(set_entry(e, k, v), o) == lookup(e, o),
{
    let p = insert_pos_from(e, k, 0);
    lemma_insert_pos_from(e, k, 0);
    let n = set_entry(e, k, v);
    if p < e.len() && e[p].0 == k {
        assert(sorted(n)) by {
            assert forall|i: int, j: int| 0 <= i < j < n.len() implies key_lt(
                #[trigger] n[i].0,
                #[trigger] n[j].0,
            ) by {
                assert(n[i].0 == e[i].0);
                assert(n[j].0 == e[j].0);
            }
        }
    } else {
        assert(sorted(n)) by {
            assert forall|i: int, j: int| 0 <= i < j < n.len() implies key_lt(
                #[trigger] n[i].0,
                #[trigger] n[j].0,
            ) by {
                if p < e.len() {
                    lemma_key_lt_total_eq(e[p].0, k);
                    assert(key_lt(k, e[p].0));
                }
                if i < p && j < p {
                    assert(n[i] == e[i] && n[j] == e[j]);
                } else if i < p && j == p {
                    assert(n[i] == e[i]);
                } else if i < p && j > p {
                    assert(n[i] == e[i] && n[j] == e[j - 1]);
                    assert(key_lt(e[i].0, k));
                    if j - 1 > p {
                        assert(key_lt(e[p].0, e[j - 1].0));
                        lemma_key_lt_transitive(k, e[p].0, e[j - 1].0, 0);
                    }
                    lemma_key_lt_transitive(e[i].0, k, e[j - 1].0, 0);
                } else if i == p {
                    assert(n[j] == e[j - 1]);
                    if j - 1 > p {
                        assert(key_lt(e[p].0, e[j - 1].0));
                        lemma_key_lt_transitive(k, e[p].0, e[j - 1].0, 0);
                    }
                } else {
                    assert(n[i] == e[i - 1] && n[j] == e[j - 1]);
                }
            }
        }
    }
    lemma_lookup_sorted(n, k);
    assert(n[p].0 == k);
    assert forall|o: Seq<char>| o != k implies #[trigger] lookup(n, o) == lookup(e, o) by {
        lemma_lookup_sorted(n, o);
        lemma_lookup_sorted(e, o);
        if lookup(e, o) is Some {
            let i = choose|i: int| 0 <= i < e.len() && #[trigger] e[i].0 == o;
            if p < e.len() && e[p].0 == k {
                assert(n[i] == e[i]);
            } else if i < p {
                assert(n[i] == e[i]);
            } else {
                assert(n[i + 1] == e[i]);
            }
        }
        if lookup(n, o) is Some {
            let i = choose|i: int| 0 <= i < n.len() && #[trigger] n[i].0 == o;
            if p < e.len() && e[p].0 == k {
                assert(n[i] == e[i]);
            } else if i < p {
                assert(n[i] == e[i]);
            } else {
                assert(i != p);
                assert(n[i] == e[i - 1]);
            }
        }
    }
}

/// Removing a name keeps the table sorted, hides that name, and leaves
/// every other name as it was.
pub proof fn lemma_remove_entry(e: Entries, k: Seq<char>)
    requires
        sorted(e),
    ensures
        sorted(remove_entry(e, k)),
        lookup(remove_entry(e, k), k) is None,
        forall|o: Seq<char>| o != k ==> #[trigger] lookup(remove_entry(e, k), o) == lookup(e, o),
{
    lemma_find_key_from(e, k, 0);
    let n = remove_entry(e, k);
    match find_key_from(e, k, 0) {
        Some(p) => {
            assert(sorted(n)) by {
                assert forall|i: int, j: int| 0 <= i < j < n.len() implies key_lt(
                    #[trigger] n[i].0,
                    #[trigger] n[j].0,
                ) by {
                    if j < p {
                        assert(n[i] == e[i] && n[j] == e[j]);
                    } else if i < p {
                        assert(n[i] == e[i] && n[j] == e[j + 1]);
                    } else {
                        assert(n[i] == e[i + 1] && n[j] == e[j + 1]);
                    }
                }
            }
            lemma_lookup_sorted(n, k);
            assert forall|i: int| 0 <= i < n.len() implies #[trigger] n[i].0 != k by {
                if i < p {
                    assert(n[i] == e[i]);
                    assert(key_lt(e[i].0, e[p].0));
                    lemma_key_lt_irreflexive(k, 0);
                } else {
                    assert(n[i] == e[i + 1]);
                    assert(key_lt(e[p].0, e[i + 1].0));
                    lemma_key_lt_irreflexive(k, 0);
                }
            }
            assert forall|o: Seq<char>| o != k implies #[trigger] lookup(n, o) == lookup(e, o) by {
                lemma_lookup_sorted(n, o);
                lemma_lookup_sorted(e, o);
                if lookup(e, o) is Some {
                    let i = choose|i: int| 0 <= i < e.len() && #[trigger] e[i].0 == o;
                    if i < p {
                        assert(n[i] == e[i]);
                    } else {
                        assert(i != p);
                        assert(n[i - 1] == e[i]);
                    }
                }
                if lookup(n, o) is Some {
                    let i = choose|i: int| 0 <= i < n.len() && #[trigger] n[i].0 == o;
                    if i < p {
                        assert(n[i] == e[i]);
                    } else {
                        assert(n[i] == e[i + 1]);
                    }
                }
            }
        },
        None => {},
    }
}

pub proof fn lemma_apply_set(e: Entries, key: Seq<char>, value: Option<Seq<char>>)
    requires
        sorted(e),
    ensures
        sorted(apply_set(e, key, value)),
        trim(key).len() > 0 ==> lookup(apply_set(e, key, value), trim(key)) == value,
        forall|o: Seq<char>|
            o != trim(key) ==> #[trigger] lookup(apply_set(e, key, value), o) == lookup(e, o),
{
    let k = trim(key);
    if k.len() > 0 {
        match value {
            Some(v) => lemma_set_entry(e, k, v),
            None => lemma_remove_entry(e, k),
        }
    }
}

// ---------------------------------------------------------------------------
// Store model: table, saved baseline, undo and redo stacks
// ---------------------------------------------------------------------------

pub struct FlagModel {
    pub flags: Entries,
    pub saved: Entries,
    pub undo: Seq<Entries>,
    pub redo: Seq<Entries>,
}

/// Keep a history stack within `FLAG_UNDO_CAPACITY` by dropping its oldest
/// entry.
pub open spec fn cap_history(s: Seq<Entries>) -> Seq<Entries> {
    if s.len() > FLAG_UNDO_CAPACITY {
        s.drop_first()
    } else {
        s
    }
}

pub open spec fn well_formed(m: FlagModel) -> bool {
    &&& sorted(m.flags)
    &&& sorted(m.saved)
    &&& m.undo.len() <= FLAG_UNDO_CAPACITY
    &&& m.redo.len() <= FLAG_UNDO_CAPACITY
    &&& forall|i: int| 0 <= i < m.undo.len() ==> sorted(#[trigger] m.undo[i])
    &&& forall|i: int| 0 <= i < m.redo.len() ==> sorted(#[trigger] m.redo[i])
}

/// Record the current table on the undo stack (unless it is already on top)
/// and forget the redo stack.
pub open spec fn snapshot(m: FlagModel) -> FlagModel {
    if m.undo.len() > 0 && m.undo.last() == m.flags {
        m
    } else {
        FlagModel { undo: cap_history(m.undo.push(m.flags)), redo: Seq::empty(), ..m }
    }
}

/// Change the table without touching the history.
pub open spec fn edit(m: FlagModel, key: Seq<char>, value: Option<Seq<char>>) -> FlagModel {
    FlagModel { flags: apply_set(m.flags, key, value), ..m }
}

/// `FlagStore::set`.
pub open spec fn model_set(m: FlagModel, key: Seq<char>, value: Option<Seq<char>>) -> FlagModel {
    if trim(key).len() == 0 {
        m
    } else {
        edit(snapshot(m), key, value)
    }
}

/// `FlagStore::undo`.
pub open spec fn model_undo(m: FlagModel) -> FlagModel {
    if m.undo.len() == 0 {
        m
    } else {
        FlagModel {
            flags: m.undo.last(),
            undo: m.undo.drop_last(),
            redo: cap_history(m.redo.push(m.flags)),
            ..m
        }
    }
}

/// `FlagStore::redo`.
pub open spec fn model_redo(m: FlagModel) -> FlagModel {
    if m.redo.len() == 0 {
        m
    } else {
        FlagModel {
            flags: m.redo.last(),
            redo: m.redo.drop_last(),
            undo: cap_history(m.undo.push(m.flags)),
            ..m
        }
    }
}

/// `FlagStore::mark_saved`.
pub open spec fn model_mark_saved(m: FlagModel) -> FlagModel {
    FlagModel { saved: m.flags, ..m }
}

pub open spec fn model_changed(m: FlagModel) -> bool {
    m.flags != m.saved
}

pub proof fn lemma_snapshot_wf(m: FlagModel)
    requires
        well_formed(m),
    ensures
        well_formed(snapshot(m)),
        snapshot(m).flags == m.flags,
        snapshot(m).saved == m.saved,
        snapshot(m).undo.len() > 0,
        snapshot(m).undo.last() == m.flags,
{
}

pub proof fn lemma_edit_wf(m: FlagModel, key: Seq<char>, value: Option<Seq<char>>)
    requires
        well_formed(m),
    ensures
        well_formed(edit(m, key, value)),
{
    lemma_apply_set(m.flags, key, value);
}

pub proof fn lemma_model_set_wf(m: FlagModel, key: Seq<char>, value: Option<Seq<char>>)
    requires
        well_formed(m),
    ensures
        well_formed(model_set(m, key, value)),
{
    lemma_snapshot_wf(m);
    lemma_edit_wf(snapshot(m), key, value);
}

pub proof fn lemma_undo_redo_wf(m: FlagModel)
    requires
        well_formed(m),
    ensures
        well_formed(model_undo(m)),
        well_formed(model_redo(m)),
{
}

// ---------------------------------------------------------------------------
// Presets
// ---------------------------------------------------------------------------

/// Named presets shown in the UI, mapped to real Roblox flag names.
pub open spec fn preset_table() -> Entries {
    seq![
        ("Rendering.ManualFullscreen"@, "FFlagHandleAltEnterFullscreenManually"@),
        ("Rendering.PauseVoxelizer"@, "DFFlagDebugPauseVoxelizer"@),
        ("Rendering.DisableScaling"@, "DFFlagDisableDPIScale"@),
        ("Rendering.TextureQuality.OverrideEnabled"@, "DFFlagTextureQualityOverrideEnabled"@),
        ("Rendering.TextureQuality.Level"@, "DFIntTextureQualityOverride"@),
        ("Rendering.FrmQuality"@, "DFIntDebugFRMQualityLevelOverride"@),
        ("Rendering.LowPolyMeshes1"@, "DFIntCSGLevelOfDetailSwitchingDistance"@),
        ("Rendering.LowPolyMeshes2"@, "DFIntCSGLevelOfDetailSwitchingDistanceL12"@),
        ("Rendering.LowPolyMeshes3"@, "DFIntCSGLevelOfDetailSwitchingDistanceL23"@),
        ("Rendering.LowPolyMeshes4"@, "DFIntCSGLevelOfDetailSwitchingDistanceL34"@),
        ("Rendering.Mode.D3D11"@, "FFlagDebugGraphicsPreferD3D11"@),
        ("Rendering.Mode.Vulkan"@, "FFlagDebugGraphicsPreferVulkan"@),
        ("Rendering.Mode.OpenGL"@, "FFlagDebugGraphicsPreferOpenGL"@),
        ("Graphic.GraySky"@, "FFlagDebugSkyGray"@),
        ("Rendering.MSAA1"@, "FIntDebugForceMSAASamples"@),
        ("Rendering.RemoveGrass1"@, "FIntFRMMinGrassDistance"@),
        ("Rendering.RemoveGrass2"@, "FIntFRMMaxGrassDistance"@),
        ("Rendering.RemoveGrass3"@, "FIntGrassMovementReducedMotionFactor"@),
        ("Performance.FpsCap"@, "DFIntTaskSchedulerTargetFps"@),
    ]
}

/// Flag behind the first preset at or after index `i` named `key`.
pub open spec fn preset_lookup_from(key: Seq<char>, i: int) -> Option<Seq<char>>
    decreases preset_table().len() - i,
{
    if i < 0 || i >= preset_table().len() {
        None
    } else if preset_table()[i].0 == key {
        Some(preset_table()[i].1)
    } else {
        preset_lookup_from(key, i + 1)
    }
}

pub open spec fn preset_lookup(key: Seq<char>) -> Option<Seq<char>> {
    preset_lookup_from(key, 0)
}

/// `FlagStore::set_preset`: unknown preset names change nothing.
pub open spec fn model_set_preset(m: FlagModel, key: Seq<char>, value: Option<Seq<char>>) -> FlagModel {
    match preset_lookup(key) {
        Some(flag) => model_set(m, flag, value),
        None => m,
    }
}

/// Table edits for the presets at indices `i..` whose name starts with
/// `prefix`: those also starting with `target` get `value`, the others are
/// cleared.
pub open spec fn preset_edits_from(
    e: Entries,
    i: int,
    prefix: Seq<char>,
    target: Seq<char>,
    value: Option<Seq<char>>,
) -> Entries
    decreases preset_table().len() - i,
{
    if i < 0 || i >= preset_table().len() {
        e
    } else {
        let entry = preset_table()[i];
        let e1 = if starts_with(entry.0, prefix) {
            apply_set(
                e,
                entry.1,
                if starts_with(entry.0, target) {
                    value
                } else {
                    None
                },
            )
        } else {
            e
        };
        preset_edits_from(e1, i + 1, prefix, target, value)
    }
}

/// `FlagStore::set_preset_exclusive`: one history entry, then the edits.
pub open spec fn model_set_preset_exclusive(
    m: FlagModel,
    prefix: Seq<char>,
    target: Seq<char>,
    value: Option<Seq<char>>,
) -> FlagModel {
    let s = snapshot(m);
    FlagModel {
        flags: preset_edits_from(s.flags, 0, prefix, prefix + seq!['.'] + target, value),
        ..s
    }
}

/// `FlagStore::set_preset_group`: every preset under `prefix` gets `value`.
pub open spec fn model_set_preset_group(m: FlagModel, prefix: Seq<char>, value: Option<Seq<char>>) -> FlagModel {
    let s = snapshot(m);
    FlagModel { flags: preset_edits_from(s.flags, 0, prefix, prefix, value), ..s }
}

pub proof fn lemma_preset_edits_sorted(
    e: Entries,
    i: int,
    prefix: Seq<char>,
    target: Seq<char>,
    value: Option<Seq<char>>,
)
    requires
        sorted(e),
    ensures
        sorted(preset_edits_from(e, i, prefix, target, value)),
    decreases preset_table().len() - i,
{
    if 0 <= i < preset_table().len() {
        let entry = preset_table()[i];
        let v = if starts_with(entry.0, target) {
            value
        } else {
            None
        };
        lemma_apply_set(e, entry.1, v);
        let e1 = if starts_with(entry.0, prefix) {
            apply_set(e, entry.1, v)
        } else {
            e
        };
        lemma_preset_edits_sorted(e1, i + 1, prefix, target, value);
    }
}

pub proof fn lemma_group_wf(m: FlagModel, prefix: Seq<char>, target: Seq<char>, value: Option<Seq<char>>)
    requires
        well_formed(m),
    ensures
        well_formed(model_set_preset_exclusive(m, prefix, target, value)),
        well_formed(model_set_preset_group(m, prefix, value)),
        well_formed(model_set_preset(m, prefix, value)),
{
    lemma_snapshot_wf(m);
    lemma_preset_edits_sorted(snapshot(m).flags, 0, prefix, prefix + seq!['.'] + target, value);
    lemma_preset_edits_sorted(snapshot(m).flags, 0, prefix, prefix, value);
    if let Some(flag) = preset_lookup(prefix) {
        lemma_model_set_wf(m, flag, value);
    }
}

/// Value written for an FPS cap: nothing for "no cap" or zero.
pub open spec fn fps_cap_value(cap: Option<u32>) -> Option<Seq<char>> {
    match cap {
        Some(n) => if n == 0 {
            None
        } else {
            Some(dec(n as nat))
        },
        None => None,
    }
}

/// Value written for a level setting where zero disables the override.
pub open spec fn level_value(level: u8) -> Option<Seq<char>> {
    if level == 0 {
        None
    } else {
        Some(dec(level as nat))
    }
}

/// `"True"` when `on`, otherwise the flag is removed.
pub open spec fn true_or_none(on: bool) -> Option<Seq<char>> {
    if on {
        Some("True"@)
    } else {
        None
    }
}

// ---------------------------------------------------------------------------
// Allowlists
// ---------------------------------------------------------------------------

/// A flag name is on the allowlist when some entry matches it ignoring
/// ASCII case.
pub open spec fn allowed(allow: Seq<Seq<char>>, name: Seq<char>) -> bool {
    exists|i: int| 0 <= i < allow.len() && lower(#[trigger] allow[i]) == lower(name)
}

pub open spec fn keys_of(e: Entries) -> Seq<Seq<char>> {
    e.map_values(|p: (Seq<char>, Seq<char>)| p.0)
}

/// The entries whose names are on the allowlist, in table order.
pub open spec fn allowed_entries(e: Entries, allow: Seq<Seq<char>>) -> Entries {
    e.filter(|p: (Seq<char>, Seq<char>)| allowed(allow, p.0))
}

// ---------------------------------------------------------------------------
// Laws
// ---------------------------------------------------------------------------

/// Reading a flag right after setting it gives the value that was set, and
/// no other flag changes.
pub proof fn law_set_then_get(m: FlagModel, key: Seq<char>, value: Option<Seq<char>>, other: Seq<char>)
    requires
        well_formed(m),
        trim(key).len() > 0,
        other != trim(key),
    ensures
        lookup(model_set(m, key, value).flags, trim(key)) == value,
        lookup(model_set(m, key, value).flags, other) == lookup(m.flags, other),
{
    lemma_apply_set(m.flags, key, value);
}

/// Undo right after a set restores the table as it was before the set.
pub proof fn law_undo_reverts_set(m: FlagModel, key: Seq<char>, value: Option<Seq<char>>)
    requires
        well_formed(m),
        trim(key).len() > 0,
    ensures
        model_undo(model_set(m, key, value)).flags == m.flags,
{
    lemma_snapshot_wf(m);
}

/// A flag behind a preset at index `i` or later whose name starts with
/// `prefix`.
pub open spec fn in_group_from(prefix: Seq<char>, flag: Seq<char>, i: int) -> bool {
    exists|j: int|
        i <= j < preset_table().len() && starts_with(#[trigger] preset_table()[j].0, prefix)
            && preset_table()[j].1 == flag
}

/// The flags of the preset group `prefix`.
pub open spec fn in_group(prefix: Seq<char>, flag: Seq<char>) -> bool {
    in_group_from(prefix, flag, 0)
}

/// Every preset's flag is a non-empty name with no surrounding whitespace.
proof fn lemma_preset_flags_trimmed()
    ensures
        forall|i: int|
            0 <= i < preset_table().len() ==> #[trigger] trim(preset_table()[i].1)
                == preset_table()[i].1 && preset_table()[i].1.len() > 0,
{
    reveal_strlit("FFlagHandleAltEnterFullscreenManually");
    reveal_strlit("DFFlagDebugPauseVoxelizer");
    reveal_strlit("DFFlagDisableDPIScale");
    reveal_strlit("DFFlagTextureQualityOverrideEnabled");
    reveal_strlit("DFIntTextureQualityOverride");
    reveal_strlit("DFIntDebugFRMQualityLevelOverride");
    reveal_strlit("DFIntCSGLevelOfDetailSwitchingDistance");
    reveal_strlit("DFIntCSGLevelOfDetailSwitchingDistanceL12");
    reveal_strlit("DFIntCSGLevelOfDetailSwitchingDistanceL23");
    reveal_strlit("DFIntCSGLevelOfDetailSwitchingDistanceL34");
    reveal_strlit("FFlagDebugGraphicsPreferD3D11");
    reveal_strlit("FFlagDebugGraphicsPreferVulkan");
    reveal_strlit("FFlagDebugGraphicsPreferOpenGL");
    reveal_strlit("FFlagDebugSkyGray");
    reveal_strlit("FIntDebugForceMSAASamples");
    reveal_strlit("FIntFRMMinGrassDistance");
    reveal_strlit("FIntFRMMaxGrassDistance");
    reveal_strlit("FIntGrassMovementReducedMotionFactor");
    reveal_strlit("DFIntTaskSchedulerTargetFps");
    lemma_trim_fixed(preset_table()[0].1);
    lemma_trim_fixed(preset_table()[1].1);
    lemma_trim_fixed(preset_table()[2].1);
    lemma_trim_fixed(preset_table()[3].1);
    lemma_trim_fixed(preset_table()[4].1);
    lemma_trim_fixed(preset_table()[5].1);
    lemma_trim_fixed(preset_table()[6].1);
    lemma_trim_fixed(preset_table()[7].1);
    lemma_trim_fixed(preset_table()[8].1);
    lemma_trim_fixed(preset_table()[9].1);
    lemma_trim_fixed(preset_table()[10].1);
    lemma_trim_fixed(preset_table()[11].1);
    lemma_trim_fixed(preset_table()[12].1);
    lemma_trim_fixed(preset_table()[13].1);
    lemma_trim_fixed(preset_table()[14].1);
    lemma_trim_fixed(preset_table()[15].1);
    lemma_trim_fixed(preset_table()[16].1);
    lemma_trim_fixed(preset_table()[17].1);
    lemma_trim_fixed(preset_table()[18].1);
}

proof fn lemma_group_edits(e: Entries, i: int, prefix: Seq<char>, value: Option<Seq<char>>, f: Seq<char>)
    requires
        sorted(e),
        0 <= i,
    ensures
        sorted(preset_edits_from(e, i, prefix, prefix, value)),
        lookup(preset_edits_from(e, i, prefix, prefix, value), f) == if in_group_from(prefix, f, i) {
            value
        } else {
            lookup(e, f)
        },
    decreases preset_table().len() - i,
{
    if i < preset_table().len() {
        let entry = preset_table()[i];
        lemma_preset_flags_trimmed();
        assert(trim(entry.1) == entry.1 && entry.1.len() > 0);
        lemma_apply_set(e, entry.1, value);
        let e1 = if starts_with(entry.0, prefix) {
            apply_set(e, entry.1, value)
        } else {
            e
        };
        lemma_group_edits(e1, i + 1, prefix, value, f);
        if in_group_from(prefix, f, i + 1) {
            let j = choose|j: int|
                i + 1 <= j < preset_table().len() && starts_with(#[trigger] preset_table()[j].0, prefix)
                    && preset_table()[j].1 == f;
            assert(in_group_from(prefix, f, i));
        } else if starts_with(entry.0, prefix) && entry.1 == f {
            assert(in_group_from(prefix, f, i));
        } else {
            if in_group_from(prefix, f, i) {
                let j = choose|j: int|
                    i <= j < preset_table().len() && starts_with(#[trigger] preset_table()[j].0, prefix)
                        && preset_table()[j].1 == f;
                if j > i {
                    assert(in_group_from(prefix, f, i + 1));
                }
            }
        }
    } else {
        assert(!in_group_from(prefix, f, i));
    }
}

/// Setting a preset group gives every flag of the group the value, leaves
/// every other flag as it was, and one undo restores the whole table.
pub proof fn law_set_preset_group(m: FlagModel, prefix: Seq<char>, value: Option<Seq<char>>, f: Seq<char>)
    requires
        well_formed(m),
    ensures
        in_group(prefix, f) ==> lookup(model_set_preset_group(m, prefix, value).flags, f) == value,
        !in_group(prefix, f) ==> lookup(model_set_preset_group(m, prefix, value).flags, f) == lookup(
            m.flags,
            f,
        ),
        model_undo(model_set_preset_group(m, prefix, value)).flags == m.flags,
{
    lemma_snapshot_wf(m);
    lemma_group_edits(snapshot(m).flags, 0, prefix, value, f);
}

/// No flag stands behind two presets.
proof fn lemma_preset_flags_distinct()
    ensures
        forall|i: int, j: int|
            0 <= i < j < preset_table().len() ==> #[trigger] preset_table()[i].1 != #[trigger] preset_table()[j].1,
{
    reveal_strlit("FFlagHandleAltEnterFullscreenManually");
    reveal_strlit("DFFlagDebugPauseVoxelizer");
    reveal_strlit("DFFlagDisableDPIScale");
    reveal_strlit("DFFlagTextureQualityOverrideEnabled");
    reveal_strlit("DFIntTextureQualityOverride");
    reveal_strlit("DFIntDebugFRMQualityLevelOverride");
    reveal_strlit("DFIntCSGLevelOfDetailSwitchingDistance");
    reveal_strlit("DFIntCSGLevelOfDetailSwitchingDistanceL12");
    reveal_strlit("DFIntCSGLevelOfDetailSwitchingDistanceL23");
    reveal_strlit("DFIntCSGLevelOfDetailSwitchingDistanceL34");
    reveal_strlit("FFlagDebugGraphicsPreferD3D11");
    reveal_strlit("FFlagDebugGraphicsPreferVulkan");
    reveal_strlit("FFlagDebugGraphicsPreferOpenGL");
    reveal_strlit("FFlagDebugSkyGray");
    reveal_strlit("FIntDebugForceMSAASamples");
    reveal_strlit("FIntFRMMinGrassDistance");
    reveal_strlit("FIntFRMMaxGrassDistance");
    reveal_strlit("FIntGrassMovementReducedMotionFactor");
    reveal_strlit("DFIntTaskSchedulerTargetFps");
    let name0 = preset_table()[0].1;
    assert(name0 == "FFlagHandleAltEnterFullscreenManually"@);
    let name1 = preset_table()[1].1;
    assert(name1 == "DFFlagDebugPauseVoxelizer"@);
    let name2 = preset_table()[2].1;
    assert(name2 == "DFFlagDisableDPIScale"@);
    let name3 = preset_table()[3].1;
    assert(name3 == "DFFlagTextureQualityOverrideEnabled"@);
    let name4 = preset_table()[4].1;
    assert(name4 == "DFIntTextureQualityOverride"@);
    let name5 = preset_table()[5].1;
    assert(name5 == "DFIntDebugFRMQualityLevelOverride"@);
    let name6 = preset_table()[6].1;
    assert(name6 == "DFIntCSGLevelOfDetailSwitchingDistance"@);
    let name7 = preset_table()[7].1;
    assert(name7 == "DFIntCSGLevelOfDetailSwitchingDistanceL12"@);
    let name8 = preset_table()[8].1;
    assert(name8 == "DFIntCSGLevelOfDetailSwitchingDistanceL23"@);
    let name9 = preset_table()[9].1;
    assert(name9 == "DFIntCSGLevelOfDetailSwitchingDistanceL34"@);
    let name10 = preset_table()[10].1;
    assert(name10 == "FFlagDebugGraphicsPreferD3D11"@);
    let name11 = preset_table()[11].1;
    assert(name11 == "FFlagDebugGraphicsPreferVulkan"@);
    let name12 = preset_table()[12].1;
    assert(name12 == "FFlagDebugGraphicsPreferOpenGL"@);
    let name13 = preset_table()[13].1;
    assert(name13 == "FFlagDebugSkyGray"@);
    let name14 = preset_table()[14].1;
    assert(name14 == "FIntDebugForceMSAASamples"@);
    let name15 = preset_table()[15].1;
    assert(name15 == "FIntFRMMinGrassDistance"@);
    let name16 = preset_table()[16].1;
    assert(name16 == "FIntFRMMaxGrassDistance"@);
    let name17 = preset_table()[17].1;
    assert(name17 == "FIntGrassMovementReducedMotionFactor"@);
    let name18 = preset_table()[18].1;
    assert(name18 == "DFIntTaskSchedulerTargetFps"@);
    assert(name0.len() != name1.len());
    assert(name0.len() != name2.len());
    assert(name0.len() != name3.len());
    assert(name0.len() != name4.len());
    assert(name0.len() != name5.len());
    assert(name0.len() != name6.len());
    assert(name0.len() != name7.len());
    assert(name0.len() != name8.len());
    assert(name0.len() != name9.len());
    assert(name0.len() != name10.len());
    assert(name0.len() != name11.len());
    assert(name0.len() != name12.len());
    assert(name0.len() != name13.len());
    assert(name0.len() != name14.len());
    assert(name0.len() != name15.len());
    assert(name0.len() != name16.len());
    assert(name0.len() != name17.len());
    assert(name0.len() != name18.len());
    assert(name1.len() != name2.len());
    assert(name1.len() != name3.len());
    assert(name1.len() != name4.len());
    assert(name1.len() != name5.len());
    assert(name1.len() != name6.len());
    assert(name1.len() != name7.len());
    assert(name1.len() != name8.len());
    assert(name1.len() != name9.len());
    assert(name1.len() != name10.len());
    assert(name1.len() != name11.len());
    assert(name1.len() != name12.len());
    assert(name1.len() != name13.len());
    assert(name1[0] != name14[0]);
    assert(name1.len() != name15.len());
    assert(name1.len() != name16.len());
    assert(name1.len() != name17.len());
    assert(name1.len() != name18.len());
    assert(name2.len() != name3.len());
    assert(name2.len() != name4.len());
    assert(name2.len() != name5.len());
    assert(name2.len() != name6.len());
    assert(name2.len() != name7.len());
    assert(name2.len() != name8.len());
    assert(name2.len() != name9.len());
    assert(name2.len() != name10.len());
    assert(name2.len() != name11.len());
    assert(name2.len() != name12.len());
    assert(name2.len() != name13.len());
    assert(name2.len() != name14.len());
    assert(name2.len() != name15.len());
    assert(name2.len() != name16.len());
    assert(name2.len() != name17.len());
    assert(name2.len() != name18.len());
    assert(name3.len() != name4.len());
    assert(name3.len() != name5.len());
    assert(name3.len() != name6.len());
    assert(name3.len() != name7.len());
    assert(name3.len() != name8.len());
    assert(name3.len() != name9.len());
    assert(name3.len() != name10.len());
    assert(name3.len() != name11.len());
    assert(name3.len() != name12.len());
    assert(name3.len() != name13.len());
    assert(name3.len() != name14.len());
    assert(name3.len() != name15.len());
    assert(name3.len() != name16.len());
    assert(name3.len() != name17.len());
    assert(name3.len() != name18.len());
    assert(name4.len() != name5.len());
    assert(name4.len() != name6.len());
    assert(name4.len() != name7.len());
    assert(name4.len() != name8.len());
    assert(name4.len() != name9.len());
    assert(name4.len() != name10.len());
    assert(name4.len() != name11.len());
    assert(name4.len() != name12.len());
    assert(name4.len() != name13.len());
    assert(name4.len() != name14.len());
    assert(name4.len() != name15.len());
    assert(name4.len() != name16.len());
    assert(name4.len() != name17.len());
    assert(name4[6] != name18[6]);
    assert(name5.len() != name6.len());
    assert(name5.len() != name7.len());
    assert(name5.len() != name8.len());
    assert(name5.len() != name9.len());
    assert(name5.len() != name10.len());
    assert(name5.len() != name11.len());
    assert(name5.len() != name12.len());
    assert(name5.len() != name13.len());
    assert(name5.len() != name14.len());
    assert(name5.len() != name15.len());
    assert(name5.len() != name16.len());
    assert(name5.len() != name17.len());
    assert(name5.len() != name18.len());
    assert(name6.len() != name7.len());
    assert(name6.len() != name8.len());
    assert(name6.len() != name9.len());
    assert(name6.len() != name10.len());
    assert(name6.len() != name11.len());
    assert(name6.len() != name12.len());
    assert(name6.len() != name13.len());
    assert(name6.len() != name14.len());
    assert(name6.len() != name15.len());
    assert(name6.len() != name16.len());
    assert(name6.len() != name17.len());
    assert(name6.len() != name18.len());
    assert(name7[39] != name8[39]);
    assert(name7[39] != name9[39]);
    assert(name7.len() != name10.len());
    assert(name7.len() != name11.len());
    assert(name7.len() != name12.len());
    assert(name7.len() != name13.len());
    assert(name7.len() != name14.len());
    assert(name7.len() != name15.len());
    assert(name7.len() != name16.len());
    assert(name7.len() != name17.len());
    assert(name7.len() != name18.len());
    assert(name8[39] != name9[39]);
    assert(name8.len() != name10.len());
    assert(name8.len() != name11.len());
    assert(name8.len() != name12.len());
    assert(name8.len() != name13.len());
    assert(name8.len() != name14.len());
    assert(name8.len() != name15.len());
    assert(name8.len() != name16.len());
    assert(name8.len() != name17.len());
    assert(name8.len() != name18.len());
    assert(name9.len() != name10.len());
    assert(name9.len() != name11.len());
    assert(name9.len() != name12.len());
    assert(name9.len() != name13.len());
    assert(name9.len() != name14.len());
    assert(name9.len() != name15.len());
    assert(name9.len() != name16.len());
    assert(name9.len() != name17.len());
    assert(name9.len() != name18.len());
    assert(name10.len() != name11.len());
    assert(name10.len() != name12.len());
    assert(name10.len() != name13.len());
    assert(name10.len() != name14.len());
    assert(name10.len() != name15.len());
    assert(name10.len() != name16.len());
    assert(name10.len() != name17.len());
    assert(name10.len() != name18.len());
    assert(name11[24] != name12[24]);
    assert(name11.len() != name13.len());
    assert(name11.len() != name14.len());
    assert(name11.len() != name15.len());
    assert(name11.len() != name16.len());
    assert(name11.len() != name17.len());
    assert(name11.len() != name18.len());
    assert(name12.len() != name13.len());
    assert(name12.len() != name14.len());
    assert(name12.len() != name15.len());
    assert(name12.len() != name16.len());
    assert(name12.len() != name17.len());
    assert(name12.len() != name18.len());
    assert(name13.len() != name14.len());
    assert(name13.len() != name15.len());
    assert(name13.len() != name16.len());
    assert(name13.len() != name17.len());
    assert(name13.len() != name18.len());
    assert(name14.len() != name15.len());
    assert(name14.len() != name16.len());
    assert(name14.len() != name17.len());
    assert(name14.len() != name18.len());
    assert(name15[8] != name16[8]);
    assert(name15.len() != name17.len());
    assert(name15.len() != name18.len());
    assert(name16.len() != name17.len());
    assert(name16.len() != name18.len());
    assert(name17.len() != name18.len());
    assert forall|i: int, j: int|
        0 <= i < j < preset_table().len() implies #[trigger] preset_table()[i].1 != #[trigger] preset_table()[j].1 by {
        assert(i == 0 || i == 1 || i == 2 || i == 3 || i == 4 || i == 5 || i == 6 || i == 7 || i == 8 || i == 9 || i == 10 || i == 11 || i == 12 || i == 13 || i == 14 || i == 15 || i == 16 || i == 17 || i == 18);
        assert(j == 0 || j == 1 || j == 2 || j == 3 || j == 4 || j == 5 || j == 6 || j == 7 || j == 8 || j == 9 || j == 10 || j == 11 || j == 12 || j == 13 || j == 14 || j == 15 || j == 16 || j == 17 || j == 18);
    }
}

/// A flag behind a preset at index `i` or later whose name starts with both
/// `prefix` and `target`.
pub open spec fn in_both_from(prefix: Seq<char>, target: Seq<char>, flag: Seq<char>, i: int) -> bool {
    exists|j: int|
        i <= j < preset_table().len() && starts_with(#[trigger] preset_table()[j].0, prefix)
            && starts_with(preset_table()[j].0, target) && preset_table()[j].1 == flag
}

proof fn lemma_exclusive_edits(
    e: Entries,
    i: int,
    prefix: Seq<char>,
    target: Seq<char>,
    value: Option<Seq<char>>,
    f: Seq<char>,
)
    requires
        sorted(e),
        0 <= i,
    ensures
        lookup(preset_edits_from(e, i, prefix, target, value), f) == if in_group_from(prefix, f, i) {
            if in_both_from(prefix, target, f, i) {
                value
            } else {
                None
            }
        } else {
            lookup(e, f)
        },
    decreases preset_table().len() - i,
{
    if i < preset_table().len() {
        let entry = preset_table()[i];
        let v = if starts_with(entry.0, target) {
            value
        } else {
            None
        };
        lemma_preset_flags_trimmed();
        lemma_preset_flags_distinct();
        assert(trim(entry.1) == entry.1 && entry.1.len() > 0);
        lemma_apply_set(e, entry.1, v);
        let e1 = if starts_with(entry.0, prefix) {
            apply_set(e, entry.1, v)
        } else {
            e
        };
        lemma_exclusive_edits(e1, i + 1, prefix, target, value, f);
        if starts_with(entry.0, prefix) && entry.1 == f {
            assert(in_group_from(prefix, f, i));
            if in_group_from(prefix, f, i + 1) {
                let j = choose|j: int|
                    i + 1 <= j < preset_table().len() && starts_with(#[trigger] preset_table()[j].0, prefix)
                        && preset_table()[j].1 == f;
                assert(preset_table()[i].1 != preset_table()[j].1);
            }
            if starts_with(entry.0, target) {
                assert(in_both_from(prefix, target, f, i));
            } else if in_both_from(prefix, target, f, i) {
                let j = choose|j: int|
                    i <= j < preset_table().len() && starts_with(#[trigger] preset_table()[j].0, prefix)
                        && starts_with(preset_table()[j].0, target) && preset_table()[j].1 == f;
                if j > i {
                    assert(preset_table()[i].1 != preset_table()[j].1);
                }
            }
        } else {
            if in_group_from(prefix, f, i) {
                let j = choose|j: int|
                    i <= j < preset_table().len() && starts_with(#[trigger] preset_table()[j].0, prefix)
                        && preset_table()[j].1 == f;
                assert(j != i);
                assert(in_group_from(prefix, f, i + 1));
            }
            if in_both_from(prefix, target, f, i) {
                let j = choose|j: int|
                    i <= j < preset_table().len() && starts_with(#[trigger] preset_table()[j].0, prefix)
                        && starts_with(preset_table()[j].0, target) && preset_table()[j].1 == f;
                assert(j != i);
                assert(in_both_from(prefix, target, f, i + 1));
            }
            if in_group_from(prefix, f, i + 1) {
                let j = choose|j: int|
                    i + 1 <= j < preset_table().len() && starts_with(#[trigger] preset_table()[j].0, prefix)
                        && preset_table()[j].1 == f;
                assert(in_group_from(prefix, f, i));
            }
            if in_both_from(prefix, target, f, i + 1) {
                let j = choose|j: int|
                    i + 1 <= j < preset_table().len() && starts_with(#[trigger] preset_table()[j].0, prefix)
                        && starts_with(preset_table()[j].0, target) && preset_table()[j].1 == f;
                assert(in_both_from(prefix, target, f, i));
            }
        }
    }
}

/// Choosing one preset of a group: every flag of the presets under
/// `prefix.target` gets the value, every other flag of the group `prefix`
/// is removed, flags outside the group keep their values, and one undo
/// restores the whole table.
pub proof fn law_set_preset_exclusive(
    m: FlagModel,
    prefix: Seq<char>,
    target: Seq<char>,
    value: Option<Seq<char>>,
    f: Seq<char>,
)
    requires
        well_formed(m),
    ensures
        ({
            let r = model_set_preset_exclusive(m, prefix, target, value);
            let chosen = prefix + seq!['.'] + target;
            &&& in_group(chosen, f) ==> lookup(r.flags, f) == value
            &&& in_group(prefix, f) && !in_group(chosen, f) ==> lookup(r.flags, f) is None
            &&& !in_group(prefix, f) ==> lookup(r.flags, f) == lookup(m.flags, f)
            &&& model_undo(r).flags == m.flags
        }),
{
    let chosen = prefix + seq!['.'] + target;
    lemma_snapshot_wf(m);
    lemma_exclusive_edits(snapshot(m).flags, 0, prefix, chosen, value, f);
    if in_group(chosen, f) {
        let j = choose|j: int|
            0 <= j < preset_table().len() && starts_with(#[trigger] preset_table()[j].0, chosen)
                && preset_table()[j].1 == f;
        let k = preset_table()[j].0;
        assert(k.take(prefix.len() as int) =~= k.take(chosen.len() as int).take(prefix.len() as int));
        assert(chosen.take(prefix.len() as int) =~= prefix);
        assert(starts_with(k, prefix));
        assert(in_group(prefix, f));
        assert(in_both_from(prefix, chosen, f, 0));
    }
    if in_both_from(prefix, chosen, f, 0) {
        let j = choose|j: int|
            0 <= j < preset_table().len() && starts_with(#[trigger] preset_table()[j].0, prefix)
                && starts_with(preset_table()[j].0, chosen) && preset_table()[j].1 == f;
        assert(in_group(chosen, f));
    }
}

/// Redo right after an undo restores the table as it was before the undo.
pub proof fn law_redo_reverts_undo(m: FlagModel)
    requires
        well_formed(m),
        m.undo.len() > 0,
    ensures
        model_redo(model_undo(m)).flags == m.flags,
{
    let r = m.redo.push(m.flags);
    assert(cap_history(r).last() == m.flags);
}

/// Every edit keeps the store well formed: the table stays sorted and both
/// history stacks stay within `FLAG_UNDO_CAPACITY`.
pub proof fn law_operations_keep_well_formed(m: FlagModel, key: Seq<char>, value: Option<Seq<char>>)
    requires
        well_formed(m),
    ensures
        well_formed(model_set(m, key, value)),
        well_formed(model_undo(m)),
        well_formed(model_redo(m)),
        well_formed(model_mark_saved(m)),
        well_formed(model_set_preset_group(m, key, value)),
{
    lemma_model_set_wf(m, key, value);
    lemma_group_wf(m, key, key, value);
}

/// Right after saving, the store reports no unsaved changes.
pub proof fn law_mark_saved_clears_changed(m: FlagModel)
    ensures
        !model_changed(model_mark_saved(m)),
{
}

/// Setting a flag to the value it already has changes nothing but history.
pub proof fn law_set_same_value_keeps_table(m: FlagModel, key: Seq<char>, v: Seq<char>)
    requires
        well_formed(m),
        trim(key).len() > 0,
        lookup(m.flags, trim(key)) == Some(v),
    ensures
        model_set(m, key, Some(v)).flags == m.flags,
{
    let e = m.flags;
    let k = trim(key);
    lemma_lookup_sorted(e, k);
    lemma_insert_pos_from(e, k, 0);
    lemma_find_key_from(e, k, 0);
    let i = find_key_from(e, k, 0).unwrap();
    let p = insert_pos_from(e, k, 0);
    if i < p {
        lemma_key_lt_irreflexive(k, 0);
    } else if p < i {
        assert(key_lt(e[p].0, e[i].0));
    }
    assert(e.update(p, (k, v)) =~= e);
}

} // verus!
