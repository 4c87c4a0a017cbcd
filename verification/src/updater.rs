//! Red Strap self-updates from GitHub releases: the release record and the
//! decisions made on it (version tag, asset choice, newness).

use std::cmp::Ordering;

use vstd::prelude::*;

use crate::text::{
    char_len, chars_of, contains_sub, ends_with, ends_with_str, eq_ignore_case,
    eq_ignore_case_exec, find_sub_str, lower, lower_vec, substr,
};
use crate::version::version_order;

verus! {

/// Parsed GitHub release (only the fields we use).
#[derive(Debug, Clone)]
pub struct Release {
    pub tag: String,
    pub prerelease: bool,
    pub draft: bool,
    pub assets: Vec<ReleaseAsset>,
}

#[derive(Debug, Clone)]
pub struct ReleaseAsset {
    pub name: String,
    pub download_url: String,
}

/// The release version: the tag without one leading `v`.
pub open spec fn release_version(tag: Seq<char>) -> Seq<char> {
    if tag.len() > 0 && tag[0] == 'v' {
        tag.drop_first()
    } else {
        tag
    }
}

/// Index of the first asset at or after `i` named `file_name`, ignoring
/// ASCII case.
pub open spec fn asset_index_from(assets: Seq<ReleaseAsset>, file_name: Seq<char>, i: int) -> Option<int>
    decreases assets.len() - i,
{
    if i < 0 || i >= assets.len() {
        None
    } else if eq_ignore_case(assets[i].name@, file_name) {
        Some(i)
    } else {
        asset_index_from(assets, file_name, i + 1)
    }
}

/// Preference of a Windows asset: 64-bit builds first, then anything
/// mentioning Windows.
pub open spec fn exe_score(name: Seq<char>) -> int {
    let l = lower(name);
    if contains_sub(l, "win64"@) || contains_sub(l, "x64"@) {
        2
    } else if contains_sub(l, "win"@) {
        1
    } else {
        0
    }
}

pub open spec fn is_exe(name: Seq<char>) -> bool {
    ends_with(lower(name), ".exe"@)
}

/// Best `.exe` asset among indices `i..`, starting from the best so far:
/// a later asset wins ties.
pub open spec fn best_exe_from(assets: Seq<ReleaseAsset>, i: int, best: Option<int>) -> Option<int>
    decreases assets.len() - i,
{
    if i < 0 || i >= assets.len() {
        best
    } else {
        let next = if is_exe(assets[i].name@) && (match best {
            Some(b) => exe_score(assets[i].name@) >= exe_score(assets[b].name@),
            None => true,
        }) {
            Some(i)
        } else {
            best
        };
        best_exe_from(assets, i + 1, next)
    }
}

fn score_exec(name: &str) -> (r: u8)
    ensures
        r as int == exe_score(name@),
{
    let l = lower_vec(chars_of(name).as_slice());
    if find_sub_str(l.as_slice(), "win64", 0).is_some() || find_sub_str(l.as_slice(), "x64", 0).is_some() {
        2
    } else if find_sub_str(l.as_slice(), "win", 0).is_some() {
        1
    } else {
        0
    }
}

impl Release {
    /// `v1.2.3` -> `1.2.3`.
    pub fn version(&self) -> (r: &str)
        ensures
            r@ == release_version(self.tag@),
    {
        let t = self.tag.as_str();
        let n = char_len(t);
        let c = chars_of(t);
        if n > 0 && c[0] == 'v' {
            let r = substr(t, 1, n);
            assert(r@ =~= self.tag@.drop_first());
            r
        } else {
            t
        }
    }

    /// Find an asset by exact file name (case-insensitive).
    pub fn asset_named(&self, file_name: &str) -> (r: Option<&ReleaseAsset>)
        ensures
            match r {
                Some(a) => asset_index_from(self.assets@, file_name@, 0) matches Some(i) && *a
                    == self.assets@[i],
                None => asset_index_from(self.assets@, file_name@, 0) is None,
            },
    {
        let wanted = chars_of(file_name);
        let mut i: usize = 0;
        while i < self.assets.len()
            invariant
                i <= self.assets@.len(),
                wanted@ == file_name@,
                asset_index_from(self.assets@, file_name@, 0) == asset_index_from(
                    self.assets@,
                    file_name@,
                    i as int,
                ),
            decreases self.assets.len() - i,
        {
            let name = chars_of(self.assets[i].name.as_str());
            if eq_ignore_case_exec(name.as_slice(), wanted.as_slice()) {
                return Some(&self.assets[i]);
            }
            i += 1;
        }
        None
    }

    /// Pick the Windows executable asset (prefers `-win64` builds; among
    /// equally good assets the last one wins).
    pub fn windows_exe(&self) -> (r: Option<&ReleaseAsset>)
        ensures
            match r {
                Some(a) => best_exe_from(self.assets@, 0, None) matches Some(i) && *a
                    == self.assets@[i],
                None => best_exe_from(self.assets@, 0, None) is None,
            },
    {
        let mut best: Option<usize> = None;
        let mut best_score: u8 = 0;
        let mut i: usize = 0;
        while i < self.assets.len()
            invariant
                i <= self.assets@.len(),
                best_exe_from(self.assets@, 0, None) == best_exe_from(
                    self.assets@,
                    i as int,
                    match best {
                        Some(b) => Some(b as int),
                        None => None,
                    },
                ),
                match best {
                    Some(b) => b < self.assets@.len() && best_score as int == exe_score(
                        self.assets@[b as int].name@,
                    ),
                    None => true,
                },
            decreases self.assets.len() - i,
        {
            let lname = lower_vec(chars_of(self.assets[i].name.as_str()).as_slice());
            if ends_with_str(lname.as_slice(), ".exe") {
                let s = score_exec(self.assets[i].name.as_str());
                let take = match best {
                    Some(_) => s >= best_score,
                    None => true,
                };
                if take {
                    best = Some(i);
                    best_score = s;
                }
            }
            i += 1;
        }
        match best {
            Some(b) => Some(&self.assets[b]),
            None => None,
        }
    }
}

/// True when `latest` is newer than `current` (numeric comparison).
pub fn is_newer(current: &str, latest: &str) -> (r: bool)
    ensures
        r == (version_order(current@, latest@) == Ordering::Less),
{
    crate::version::is_newer(current, latest)
}

/// The releases that are not drafts, in order.
pub open spec fn published(v: Seq<Release>) -> Seq<Release>
    decreases v.len(),
{
    if v.len() == 0 {
        v
    } else if v.last().draft {
        published(v.drop_last())
    } else {
        published(v.drop_last()).push(v.last())
    }
}

/// Drop draft releases from a listing.
pub fn without_drafts(releases: Vec<Release>) -> (r: Vec<Release>)
    ensures
        r@ == published(releases@),
{
    let mut out: Vec<Release> = Vec::new();
    let mut rest = releases;
    let ghost all = rest@;
    let mut kept_rev: Vec<Release> = Vec::new();
    // Walk from the back so each release can be moved out with `pop`.
    while rest.len() > 0
        invariant
            all.len() >= rest@.len(),
            rest@ == all.take(rest@.len() as int),
            kept_rev@.len() == published(all).len() - published(rest@).len(),
            published(all) == published(rest@) + kept_rev@.reverse(),
        decreases rest.len(),
    {
        let ghost before = rest@;
        let r = rest.pop().unwrap();
        assert(rest@ =~= before.drop_last());
        assert(rest@ =~= all.take(rest@.len() as int));
        if !r.draft {
            let ghost kr = kept_rev@;
            kept_rev.push(r);
            assert(kept_rev@.reverse() =~= seq![r] + kr.reverse());
            assert(published(before) == published(rest@).push(r));
            assert(published(all) =~= published(rest@) + kept_rev@.reverse());
        }
    }
    assert(rest@ =~= Seq::<Release>::empty());
    while kept_rev.len() > 0
        invariant
            published(all) == out@ + kept_rev@.reverse(),
        decreases kept_rev.len(),
    {
        let ghost kr = kept_rev@;
        let r = kept_rev.pop().unwrap();
        assert(kr.reverse() =~= seq![r] + kept_rev@.reverse());
        out.push(r);
        assert(published(all) =~= out@ + kept_rev@.reverse());
    }
    assert(kept_rev@.reverse() =~= Seq::<Release>::empty());
    assert(out@ =~= published(all));
    out
}

/// The GitHub API URL of the latest published release of `owner/repo`.
pub fn latest_release_url(owner: &str, repo: &str) -> (r: String)
    ensures
        r@ == "https://api.github.com/repos/"@ + owner@ + "/"@ + repo@ + "/releases/latest"@,
{
    let mut s = crate::text::str_to_string("https://api.github.com/repos/");
    crate::text::push_str(&mut s, owner);
    crate::text::push_str(&mut s, "/");
    crate::text::push_str(&mut s, repo);
    crate::text::push_str(&mut s, "/releases/latest");
    s
}

/// The GitHub API URL listing the 20 most recent releases of `owner/repo`.
pub fn releases_url(owner: &str, repo: &str) -> (r: String)
    ensures
        r@ == "https://api.github.com/repos/"@ + owner@ + "/"@ + repo@ + "/releases?per_page=20"@,
{
    let mut s = crate::text::str_to_string("https://api.github.com/repos/");
    crate::text::push_str(&mut s, owner);
    crate::text::push_str(&mut s, "/");
    crate::text::push_str(&mut s, repo);
    crate::text::push_str(&mut s, "/releases?per_page=20");
    s
}

/// Name of the download staged next to an executable: `<name>-new`.
pub fn sidecar_name(file_name: &str) -> (r: String)
    ensures
        r@ == file_name@ + "-new"@,
{
    let mut s = crate::text::str_to_string(file_name);
    crate::text::push_str(&mut s, "-new");
    s
}

/// Name of the backup kept while an executable is swapped: `<name>.old`.
pub fn backup_name(file_name: &str) -> (r: String)
    ensures
        r@ == file_name@ + ".old"@,
{
    let mut s = crate::text::str_to_string(file_name);
    crate::text::push_str(&mut s, ".old");
    s
}

/// Update leftovers removed at startup: backups and staged downloads.
pub fn is_update_leftover(file_name: &str) -> (r: bool)
    ensures
        r == (ends_with(file_name@, ".old"@) || ends_with(file_name@, "-new"@)),
{
    let v = chars_of(file_name);
    ends_with_str(v.as_slice(), ".old") || ends_with_str(v.as_slice(), "-new")
}

} // verus!
