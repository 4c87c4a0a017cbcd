//! Parsers for Roblox deployment manifests.
//!
//! A version's `rbxPkgManifest.txt` lists every downloadable package as
//! repeating 4-line groups: file name, MD5 signature, packed size, and
//! extracted size. The legacy `RobloxPlayerLauncher.exe` entry terminates
//! the list and is skipped, matching long-standing bootstrapper behaviour.

use vstd::prelude::*;

use crate::error::RedStrapError;
use crate::text::{
    chars_eq_str, chars_of, eq_ignore_case, eq_ignore_case_exec, line_at, line_count,
    lines_exec, lower, lower_vec, parse_u64, parse_u64_exec, push_chars, push_str, string_of,
    trim, trim_vec,
};

verus! {

/// A single downloadable package from a version manifest.
#[derive(Debug, Clone, PartialEq, Eq)]
pub struct Package {
    /// Zip file name, e.g. `RobloxApp.zip`.
    pub name: String,
    /// Lowercase hex MD5 of the packed file; also its cache file name.
    pub signature: String,
    /// Compressed size in bytes.
    pub packed_size: u64,
    /// Extracted size in bytes.
    pub size: u64,
}

/// A package as plain values: name, signature, packed size, size.
pub type PackageView = (Seq<char>, Seq<char>, u64, u64);

pub open spec fn package_view(p: Package) -> PackageView {
    (p.name@, p.signature@, p.packed_size, p.size)
}

/// Field `f` (0..4) of package group `g`, trimmed.
pub open spec fn field(text: Seq<char>, g: int, f: int) -> Seq<char> {
    trim(line_at(text, 1 + 4 * g + f))
}

/// Read package groups from group `g` on, after `acc`. The list ends at the
/// first group with an empty field or at the legacy launcher entry; a size
/// that is not a `u64` rejects the manifest with a message.
pub open spec fn manifest_scan(text: Seq<char>, g: int, acc: Seq<PackageView>) -> Result<
    Seq<PackageView>,
    Seq<char>,
>
    decreases line_count(text) - 4 * g,
{
    let name = field(text, g, 0);
    let signature = field(text, g, 1);
    let packed = field(text, g, 2);
    let size = field(text, g, 3);
    if g < 0 || name.len() == 0 || signature.len() == 0 || packed.len() == 0 || size.len() == 0 {
        Ok(acc)
    } else if eq_ignore_case(name, "RobloxPlayerLauncher.exe"@) {
        Ok(acc)
    } else if parse_u64(packed) is None {
        Err("invalid packed size '"@ + packed + "' for package '"@ + name + "'"@)
    } else if parse_u64(size) is None {
        Err("invalid size '"@ + size + "' for package '"@ + name + "'"@)
    } else {
        manifest_scan(
            text,
            g + 1,
            acc.push((name, lower(signature), parse_u64(packed).unwrap(), parse_u64(size).unwrap())),
        )
    }
}

/// What `parse_package_manifest` returns: the packages, or the message of
/// the manifest error.
pub open spec fn manifest_spec(text: Seq<char>) -> Result<Seq<PackageView>, Seq<char>> {
    if line_count(text) == 0 {
        Err("manifest is empty"@)
    } else if line_at(text, 0) != "v0"@ {
        Err("unsupported package manifest version '"@ + line_at(text, 0) + "' (expected 'v0')"@)
    } else {
        match manifest_scan(text, 0, Seq::empty()) {
            Ok(pkgs) => if pkgs.len() == 0 {
                Err("manifest contains no downloadable packages"@)
            } else {
                Ok(pkgs)
            },
            Err(m) => Err(m),
        }
    }
}

proof fn lemma_line_past_end(text: Seq<char>, k: int)
    ensures
        k >= line_count(text) ==> line_at(text, k).len() == 0,
{
}

proof fn lemma_trim_empty()
    ensures
        trim(Seq::<char>::empty()).len() == 0,
{
    assert(crate::text::skip_ws(Seq::<char>::empty(), 0) == 0);
    assert(Seq::<char>::empty().skip(0) =~= Seq::<char>::empty());
    assert(crate::text::back_ws(Seq::<char>::empty(), 0) == 0);
}

/// Line `base + f` of the list, or nothing past its end.
fn line_or_empty(lines: &Vec<Vec<char>>, base: usize, f: usize) -> (r: Vec<char>)
    requires
        base < lines@.len(),
    ensures
        r@ == (if base + f < lines@.len() {
            lines@[base + f]@
        } else {
            Seq::empty()
        }),
{
    if f < lines.len() - base {
        let v = chars_of(string_of(lines[base + f].as_slice()).as_str());
        v
    } else {
        Vec::new()
    }
}

fn message3(a: &str, x: &[char], b: &str, y: &[char], c: &str) -> (r: String)
    ensures
        r@ == a@ + x@ + b@ + y@ + c@,
{
    let mut s = String::new();
    push_str(&mut s, a);
    push_chars(&mut s, x);
    push_str(&mut s, b);
    push_chars(&mut s, y);
    push_str(&mut s, c);
    s
}

/// Parse the text of a `*-rbxPkgManifest.txt` file.
pub fn parse_package_manifest(text: &str) -> (r: Result<Vec<Package>, RedStrapError>)
    ensures
        match r {
            Ok(pkgs) => manifest_spec(text@) == Ok::<Seq<PackageView>, Seq<char>>(
                pkgs@.map_values(|p: Package| package_view(p)),
            ),
            Err(RedStrapError::Manifest(m)) => manifest_spec(text@) == Err::<
                Seq<PackageView>,
                Seq<char>,
            >(m@),
            Err(_) => false,
        },
{
    let t = chars_of(text);
    let lines = lines_exec(t.as_slice());
    if lines.len() == 0 {
        let mut m = String::new();
        push_str(&mut m, "manifest is empty");
        return Err(RedStrapError::Manifest(m));
    }
    if !chars_eq_str(lines[0].as_slice(), "v0") {
        let mut m = String::new();
        push_str(&mut m, "unsupported package manifest version '");
        push_chars(&mut m, lines[0].as_slice());
        push_str(&mut m, "' (expected 'v0')");
        return Err(RedStrapError::Manifest(m));
    }
    let mut packages: Vec<Package> = Vec::new();
    let mut g: usize = 0;
    let mut base: usize = 0;
    let nlines = lines.len();
    assert(packages@.map_values(|p: Package| package_view(p)) =~= Seq::<PackageView>::empty());
    loop
        invariant
            t@ == text@,
            line_at(text@, 0) == "v0"@,
            nlines == lines@.len(),
            lines@.len() == line_count(text@),
            lines@.len() >= 1,
            forall|k: int| 0 <= k < lines@.len() ==> #[trigger] lines@[k]@ == line_at(text@, k),
            base == 4 * g,
            base < lines@.len(),
            manifest_scan(text@, 0, Seq::empty()) == manifest_scan(
                text@,
                g as int,
                packages@.map_values(|p: Package| package_view(p)),
            ),
        ensures
            line_count(text@) > 0,
            line_at(text@, 0) == "v0"@,
            manifest_scan(text@, 0, Seq::empty()) == Ok::<Seq<PackageView>, Seq<char>>(
                packages@.map_values(|p: Package| package_view(p)),
            ),
        decreases lines@.len() - base,
    {
        let ghost acc = packages@.map_values(|p: Package| package_view(p));
        let name = trim_vec(line_or_empty(&lines, base, 1).as_slice());
        let signature = trim_vec(line_or_empty(&lines, base, 2).as_slice());
        let packed = trim_vec(line_or_empty(&lines, base, 3).as_slice());
        let size = trim_vec(line_or_empty(&lines, base, 4).as_slice());
        proof {
            lemma_line_past_end(text@, 1 + 4 * g);
            lemma_line_past_end(text@, 2 + 4 * g);
            lemma_line_past_end(text@, 3 + 4 * g);
            lemma_line_past_end(text@, 4 + 4 * g);
            lemma_trim_empty();
        }
        assert(name@ == field(text@, g as int, 0));
        assert(signature@ == field(text@, g as int, 1));
        assert(packed@ == field(text@, g as int, 2));
        assert(size@ == field(text@, g as int, 3));
        if name.len() == 0 || signature.len() == 0 || packed.len() == 0 || size.len() == 0 {
            break;
        }
        assert(4 + base < lines@.len()) by {
            if 4 + 4 * g >= line_count(text@) {
                assert(line_at(text@, 4 + 4 * g) =~= Seq::<char>::empty());
            }
        }
        let launcher = chars_of("RobloxPlayerLauncher.exe");
        if eq_ignore_case_exec(name.as_slice(), launcher.as_slice()) {
            break;
        }
        let packed_size = match parse_u64_exec(packed.as_slice()) {
            Some(n) => n,
            None => {
                let m = message3(
                    "invalid packed size '",
                    packed.as_slice(),
                    "' for package '",
                    name.as_slice(),
                    "'",
                );
                return Err(RedStrapError::Manifest(m));
            },
        };
        let size_value = match parse_u64_exec(size.as_slice()) {
            Some(n) => n,
            None => {
                let m = message3("invalid size '", size.as_slice(), "' for package '", name.as_slice(), "'");
                return Err(RedStrapError::Manifest(m));
            },
        };
        let sig = lower_vec(signature.as_slice());
        let pkg = Package {
            name: string_of(name.as_slice()),
            signature: string_of(sig.as_slice()),
            packed_size,
            size: size_value,
        };
        packages.push(pkg);
        assert(packages@.map_values(|p: Package| package_view(p)) =~= acc.push(
            (name@, lower(signature@), packed_size, size_value),
        ));
        g += 1;
        base += 4;
    }
    if packages.len() == 0 {
        let mut m = String::new();
        push_str(&mut m, "manifest contains no downloadable packages");
        return Err(RedStrapError::Manifest(m));
    }
    Ok(packages)
}

/// The legacy launcher entry of a manifest (its name, ignoring ASCII case).
pub open spec fn is_launcher_entry(name: Seq<char>) -> bool {
    eq_ignore_case(name, "RobloxPlayerLauncher.exe"@)
}

proof fn lemma_scan_skips_launcher(text: Seq<char>, g: int, acc: Seq<PackageView>, k: int)
    requires
        0 <= g,
        acc.len() == g,
        forall|i: int| 0 <= i < g ==> (#[trigger] acc[i]).0 == field(text, i, 0) && !is_launcher_entry(acc[i].0),
        0 <= k < g ==> !is_launcher_entry(field(text, k, 0)),
    ensures
        manifest_scan(text, g, acc) matches Ok(p) ==> {
            &&& g <= p.len()
            &&& forall|i: int|
                0 <= i < p.len() ==> (#[trigger] p[i]).0 == field(text, i, 0) && !is_launcher_entry(p[i].0)
            &&& (0 <= k && is_launcher_entry(field(text, k, 0)) ==> p.len() <= k)
        },
    decreases line_count(text) - 4 * g,
{
    let name = field(text, g, 0);
    let signature = field(text, g, 1);
    let packed = field(text, g, 2);
    let size = field(text, g, 3);
    if g < 0 || name.len() == 0 || signature.len() == 0 || packed.len() == 0 || size.len() == 0 {
    } else if is_launcher_entry(name) {
    } else if parse_u64(packed) is None || parse_u64(size) is None {
    } else {
        lemma_line_past_end(text, 1 + 4 * g + 3);
        let next = acc.push((name, lower(signature), parse_u64(packed).unwrap(), parse_u64(size).unwrap()));
        assert forall|i: int| 0 <= i < g + 1 implies (#[trigger] next[i]).0 == field(text, i, 0)
            && !is_launcher_entry(next[i].0) by {
            if i < g {
                assert(next[i] == acc[i]);
            }
        }
        lemma_scan_skips_launcher(text, g + 1, next, k);
    }
}

/// The legacy launcher entry ends the package list: no package returned is
/// the launcher (ignoring ASCII case), package `i` is the `i`-th group of
/// the manifest, and nothing from the launcher's group on is returned.
pub proof fn law_manifest_stops_at_launcher(text: Seq<char>, k: int)
    ensures
        manifest_spec(text) matches Ok(p) ==> {
            &&& forall|i: int|
                0 <= i < p.len() ==> !is_launcher_entry((#[trigger] p[i]).0) && p[i].0 == field(text, i, 0)
            &&& (0 <= k && is_launcher_entry(field(text, k, 0)) ==> p.len() <= k)
        },
{
    lemma_scan_skips_launcher(text, 0, Seq::empty(), k);
}

} // verus!
