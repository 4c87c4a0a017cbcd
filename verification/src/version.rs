//! Version string parsing and comparison.
//!
//! Roblox and Red Strap both use dotted numeric versions (`0.636.0.58101`,
//! `v1.2.3`), optionally with SemVer-style pre-release (`-beta.1`) or build
//! (`+abc123`) suffixes. Comparison is purely numeric per component.

use std::cmp::Ordering;

use vstd::prelude::*;

use crate::text::{
    chars_of, find_char, find_char_exec, lemma_find_char_from, parse_u64, parse_u64_exec,
    split_char, split_char_exec, subvec, trim, trim_str, trim_vec,
};

verus! {

/// Parsed numeric version: up to four components, missing parts are zero.
pub type Parsed = [u64; 4];

/// The numeric part of a version string: trimmed, one leading `v`/`V`
/// dropped, and cut at the first `+` and then at the first `-`.
pub open spec fn version_core(input: Seq<char>) -> Seq<char> {
    let t = trim(input);
    let t1 = if t.len() > 0 && (t[0] == 'v' || t[0] == 'V') {
        t.drop_first()
    } else {
        t
    };
    let t2 = match find_char(t1, '+') {
        Some(i) => t1.take(i),
        None => t1,
    };
    match find_char(t2, '-') {
        Some(i) => t2.take(i),
        None => t2,
    }
}

/// Number of dotted components that are looked at (at most four).
pub open spec fn used_parts(parts: Seq<Seq<char>>) -> int {
    if parts.len() < 4 {
        parts.len() as int
    } else {
        4
    }
}

/// Every looked-at component is empty or a valid `u64`.
pub open spec fn parts_valid(parts: Seq<Seq<char>>) -> bool {
    forall|k: int|
        0 <= k < used_parts(parts) ==> trim(#[trigger] parts[k]).len() == 0 || parse_u64(
            trim(parts[k]),
        ) is Some
}

/// At least one looked-at component is non-empty.
pub open spec fn parts_any(parts: Seq<Seq<char>>) -> bool {
    exists|k: int| 0 <= k < used_parts(parts) && trim(#[trigger] parts[k]).len() > 0
}

/// Value of slot `k`: the parsed component, or zero when absent or empty.
pub open spec fn slot_value(parts: Seq<Seq<char>>, k: int) -> u64 {
    if k < used_parts(parts) && trim(parts[k]).len() > 0 {
        parse_u64(trim(parts[k])).unwrap()
    } else {
        0
    }
}

/// What `parse` returns for a version string.
pub open spec fn parse_spec(input: Seq<char>) -> Option<Seq<u64>> {
    let parts = split_char(version_core(input), '.');
    if parts_valid(parts) && parts_any(parts) {
        Some(seq![slot_value(parts, 0), slot_value(parts, 1), slot_value(parts, 2), slot_value(parts, 3)])
    } else {
        None
    }
}

/// Sign (-1, 0, 1) of the lexicographic order of two component sequences,
/// looking at indices `i..4`.
pub open spec fn components_sign(a: Seq<u64>, b: Seq<u64>, i: int) -> int
    decreases 4 - i,
{
    if i >= 4 || i < 0 {
        0
    } else if a[i] < b[i] {
        -1
    } else if a[i] > b[i] {
        1
    } else {
        components_sign(a, b, i + 1)
    }
}

pub open spec fn sign_to_order(s: int) -> Ordering {
    if s < 0 {
        Ordering::Less
    } else if s > 0 {
        Ordering::Greater
    } else {
        Ordering::Equal
    }
}

/// Lexicographic order of two component sequences.
pub open spec fn components_order(a: Seq<u64>, b: Seq<u64>) -> Ordering {
    sign_to_order(components_sign(a, b, 0))
}

/// What `compare` returns: numeric order, unparseable below parseable.
pub open spec fn version_order(left: Seq<char>, right: Seq<char>) -> Ordering {
    match (parse_spec(left), parse_spec(right)) {
        (Some(a), Some(b)) => components_order(a, b),
        (Some(_), None) => Ordering::Greater,
        (None, Some(_)) => Ordering::Less,
        (None, None) => Ordering::Equal,
    }
}

pub open spec fn reverse_order(o: Ordering) -> Ordering {
    match o {
        Ordering::Less => Ordering::Greater,
        Ordering::Equal => Ordering::Equal,
        Ordering::Greater => Ordering::Less,
    }
}

fn version_core_exec(input: &str) -> (r: Vec<char>)
    ensures
        r@ == version_core(input@),
{
    let t = trim_str(input);
    let t1 = if t.len() > 0 && (t[0] == 'v' || t[0] == 'V') {
        let v = subvec(t.as_slice(), 1, t.len());
        assert(v@ =~= t@.drop_first());
        v
    } else {
        t
    };
    let t2 = match find_char_exec(t1.as_slice(), '+', 0) {
        Some(i) => {
            proof {
                lemma_find_char_from(t1@, '+', 0);
            }
            let v = subvec(t1.as_slice(), 0, i);
            assert(v@ =~= t1@.take(i as int));
            v
        },
        None => t1,
    };
    match find_char_exec(t2.as_slice(), '-', 0) {
        Some(i) => {
            proof {
                lemma_find_char_from(t2@, '-', 0);
            }
            let v = subvec(t2.as_slice(), 0, i);
            assert(v@ =~= t2@.take(i as int));
            v
        },
        None => t2,
    }
}

/// Parse a dotted numeric version, tolerating a leading `v` and any
/// `-suffix` / `+metadata` trailers. Returns `None` when no numeric
/// component could be parsed.
pub fn parse(input: &str) -> (r: Option<Parsed>)
    ensures
        match r {
            Some(a) => parse_spec(input@) == Some(a@),
            None => parse_spec(input@) is None,
        },
{
    let core = version_core_exec(input);
    let parts = split_char_exec(core.as_slice(), '.');
    let ghost sparts = split_char(core@, '.');
    let n: usize = if parts.len() < 4 {
        parts.len()
    } else {
        4
    };
    let mut out: [u64; 4] = [0, 0, 0, 0];
    let mut any = false;
    let mut k: usize = 0;
    while k < n
        invariant
            sparts == split_char(core@, '.'),
            core@ == version_core(input@),
            n as int == used_parts(sparts),
            parts@.len() == sparts.len(),
            forall|j: int| 0 <= j < parts@.len() ==> #[trigger] parts@[j]@ == sparts[j],
            k <= n,
            out@.len() == 4,
            forall|j: int| 0 <= j < k ==> trim(#[trigger] sparts[j]).len() == 0 || parse_u64(
                trim(sparts[j]),
            ) is Some,
            forall|j: int| 0 <= j < k ==> #[trigger] out@[j] == slot_value(sparts, j),
            forall|j: int| k <= j < 4 ==> #[trigger] out@[j] == 0,
            any == exists|j: int| 0 <= j < k && trim(#[trigger] sparts[j]).len() > 0,
        decreases n - k,
    {
        let part = trim_vec(parts[k].as_slice());
        assert(part@ == trim(sparts[k as int]));
        if part.len() > 0 {
            match parse_u64_exec(part.as_slice()) {
                Some(value) => {
                    out[k] = value;
                    any = true;
                },
                None => {
                    assert(!parts_valid(sparts));
                    return None;
                },
            }
        }
        k += 1;
    }
    assert(parts_valid(sparts));
    if any {
        assert(out@ =~= seq![slot_value(sparts, 0), slot_value(sparts, 1), slot_value(sparts, 2), slot_value(sparts, 3)]);
        Some(out)
    } else {
        assert(!parts_any(sparts));
        None
    }
}

fn components_sign_exec(a: &Parsed, b: &Parsed) -> (r: i8)
    ensures
        r as int == components_sign(a@, b@, 0),
{
    let mut i: usize = 0;
    while i < 4
        invariant
            i <= 4,
            a@.len() == 4,
            b@.len() == 4,
            components_sign(a@, b@, 0) == components_sign(a@, b@, i as int),
        decreases 4 - i,
    {
        if a[i] < b[i] {
            return -1;
        }
        if a[i] > b[i] {
            return 1;
        }
        i += 1;
    }
    0
}

/// Compare two version strings numerically.
///
/// Unparseable input sorts below any parseable version (and equal to other
/// unparseable input) so update checks degrade gracefully instead of
/// erroring out on unexpected tags.
pub fn compare(left: &str, right: &str) -> (r: Ordering)
    ensures
        r == version_order(left@, right@),
{
    match (parse(left), parse(right)) {
        (Some(a), Some(b)) => {
            let sign = components_sign_exec(&a, &b);
            if sign < 0 {
                Ordering::Less
            } else if sign > 0 {
                Ordering::Greater
            } else {
                Ordering::Equal
            }
        },
        (Some(_), None) => Ordering::Greater,
        (None, Some(_)) => Ordering::Less,
        (None, None) => Ordering::Equal,
    }
}

/// Returns true when `candidate` is strictly newer than `current`.
pub fn is_newer(current: &str, candidate: &str) -> (r: bool)
    ensures
        r == (version_order(current@, candidate@) == Ordering::Less),
{
    match compare(current, candidate) {
        Ordering::Less => true,
        _ => false,
    }
}

// ---------------------------------------------------------------------------
// Laws of the version order
// ---------------------------------------------------------------------------

proof fn lemma_components_reflexive(a: Seq<u64>, i: int)
    requires
        0 <= i <= 4,
    ensures
        components_sign(a, a, i) == 0,
    decreases 4 - i,
{
    if i < 4 {
        lemma_components_reflexive(a, i + 1);
    }
}

proof fn lemma_components_antisymmetric(a: Seq<u64>, b: Seq<u64>, i: int)
    requires
        0 <= i <= 4,
    ensures
        components_sign(a, b, i) == -components_sign(b, a, i),
    decreases 4 - i,
{
    if i < 4 {
        lemma_components_antisymmetric(a, b, i + 1);
    }
}

proof fn lemma_components_transitive(a: Seq<u64>, b: Seq<u64>, c: Seq<u64>, i: int)
    requires
        0 <= i <= 4,
        components_sign(a, b, i) < 0,
        components_sign(b, c, i) < 0,
    ensures
        components_sign(a, c, i) < 0,
    decreases 4 - i,
{
    if i < 4 && a[i] == b[i] && b[i] == c[i] {
        lemma_components_transitive(a, b, c, i + 1);
    }
}

proof fn lemma_components_equal(a: Seq<u64>, b: Seq<u64>, i: int)
    requires
        0 <= i <= 4,
        components_sign(a, b, i) == 0,
    ensures
        forall|j: int| i <= j < 4 ==> a[j] == b[j],
    decreases 4 - i,
{
    if i < 4 {
        lemma_components_equal(a, b, i + 1);
    }
}

/// Every version compares equal to itself.
pub proof fn law_compare_reflexive(v: Seq<char>)
    ensures
        version_order(v, v) == Ordering::Equal,
{
    if let Some(a) = parse_spec(v) {
        lemma_components_reflexive(a, 0);
    }
}

/// Swapping the arguments of `compare` reverses the answer.
pub proof fn law_compare_antisymmetric(a: Seq<char>, b: Seq<char>)
    ensures
        version_order(a, b) == reverse_order(version_order(b, a)),
{
    if let (Some(x), Some(y)) = (parse_spec(a), parse_spec(b)) {
        lemma_components_antisymmetric(x, y, 0);
    }
}

/// "Older than" is transitive.
pub proof fn law_compare_transitive(a: Seq<char>, b: Seq<char>, c: Seq<char>)
    requires
        version_order(a, b) == Ordering::Less,
        version_order(b, c) == Ordering::Less,
    ensures
        version_order(a, c) == Ordering::Less,
{
    if let (Some(x), Some(y), Some(z)) = (parse_spec(a), parse_spec(b), parse_spec(c)) {
        lemma_components_transitive(x, y, z, 0);
    }
}

/// Versions that parse to the same components compare equal, and equal
/// comparison means the same parse.
pub proof fn law_compare_equal_means_same_components(a: Seq<char>, b: Seq<char>)
    ensures
        version_order(a, b) == Ordering::Equal <==> parse_spec(a) == parse_spec(b),
{
    match (parse_spec(a), parse_spec(b)) {
        (Some(x), Some(y)) => {
            if components_sign(x, y, 0) == 0 {
                lemma_components_equal(x, y, 0);
                assert(x =~= y);
            }
            if x == y {
                lemma_components_reflexive(x, 0);
            }
        },
        _ => {},
    }
}

/// A version is never newer than itself, and newness is one-directional.
pub proof fn law_is_newer_strict(a: Seq<char>, b: Seq<char>)
    ensures
        version_order(a, a) != Ordering::Less,
        version_order(a, b) == Ordering::Less ==> version_order(b, a) != Ordering::Less,
{
    law_compare_reflexive(a);
    law_compare_antisymmetric(a, b);
}

/// Any parseable version is newer than any unparseable one.
pub proof fn law_unparseable_sorts_first(bad: Seq<char>, good: Seq<char>)
    requires
        parse_spec(bad) is None,
        parse_spec(good) is Some,
    ensures
        version_order(bad, good) == Ordering::Less,
{
}

} // verus!
