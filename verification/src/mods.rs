//! File mods: the records kept for mod folders, the rules for naming new
//! ones, and the recolor tool's colour parsing and target selection.
//!
//! A mod is a folder under `Modifications/` whose contents mirror Roblox's
//! version directory (`content/textures/...`). The recolor tool tints known
//! UI textures (cursors, shift-lock, emote wheel) while preserving alpha.

use std::path::PathBuf;

use vstd::prelude::*;

use crate::error::RedStrapError;
use crate::imaging::{decode_png_rgba, encode_png_rgba, png_encoded, png_rgba};
use crate::fastflags::key_less;
use crate::flagmodel::key_lt;
use crate::roblox::LaunchMode;
use crate::text::{
    chars_of, contains_sub, dec, find_sub_str, line_at, line_count, lines_exec, push_char,
    lower, lower_vec, push_chars, push_dec, push_str, str_to_string, string_of,
    subvec, trim, trim_set, trim_set_vec, trim_str, trim_vec,
};

verus! {

// ---------------------------------------------------------------------------
// Discovery records
// ---------------------------------------------------------------------------

/// A mod folder found under `Modifications/`.
#[derive(Debug)]
pub struct ModDir {
    /// Folder name (also the key of the mod's entry in the state file).
    pub name: String,
    pub path: PathBuf,
    pub file_count: usize,
    pub total_bytes: u64,
}

/// Highest suffix tried when a mod folder name is taken.
pub const MAX_MOD_DIR_SUFFIX: u32 = 999;

/// The folder name tried for the `n`-th attempt at installing a mod called
/// `base`: `base` itself first, then `base (2)`, `base (3)`, ...
pub open spec fn mod_dir_candidate(base: Seq<char>, n: nat) -> Seq<char> {
    if n <= 1 {
        base
    } else {
        base + seq![' ', '('] + dec(n) + seq![')']
    }
}

/// The folder name to try on attempt `n` (`1` for the plain name), or
/// `None` once every suffix up to the limit has been used.
pub fn mod_dir_name(base: &str, n: u32) -> (r: Option<String>)
    ensures
        n <= MAX_MOD_DIR_SUFFIX ==> r is Some && r->0@ == mod_dir_candidate(base@, n as nat),
        n > MAX_MOD_DIR_SUFFIX ==> r is None,
{
    if n > MAX_MOD_DIR_SUFFIX {
        return None;
    }
    let mut s = String::new();
    push_str(&mut s, base);
    if n > 1 {
        push_char(&mut s, ' ');
        push_char(&mut s, '(');
        push_dec(&mut s, n as u64);
        push_char(&mut s, ')');
    }
    assert(s@ =~= mod_dir_candidate(base@, n as nat));
    Some(s)
}

// ---------------------------------------------------------------------------
// Colours
// ---------------------------------------------------------------------------

/// `char::to_digit(16)`.
pub open spec fn hex_val(c: char) -> Option<nat> {
    if '0' <= c && c <= '9' {
        Some((c as int - '0' as int) as nat)
    } else if 'a' <= c && c <= 'f' {
        Some((c as int - 'a' as int + 10) as nat)
    } else if 'A' <= c && c <= 'F' {
        Some((c as int - 'A' as int + 10) as nat)
    } else {
        None
    }
}

/// `u8::from_str_radix(s, 16)` on a two-character string: two hex digits,
/// or a `+` sign followed by one.
pub open spec fn hex_pair(a: char, b: char) -> Option<nat> {
    if a == '+' {
        hex_val(b)
    } else {
        match (hex_val(a), hex_val(b)) {
            (Some(x), Some(y)) => Some(16 * x + y),
            _ => None,
        }
    }
}

/// The text after trimming and dropping one leading `#`.
pub open spec fn hex_body(text: Seq<char>) -> Seq<char> {
    let t = trim(text);
    if t.len() > 0 && t[0] == '#' {
        t.skip(1)
    } else {
        t
    }
}

pub open spec fn all_ascii(s: Seq<char>) -> bool {
    forall|i: int| 0 <= i < s.len() ==> s[i] < '\u{80}'
}

/// What `parse_hex_color` accepts: `rgb` or `rrggbb` after an optional `#`,
/// each short digit doubled. Text that is not ASCII has a different length
/// in bytes than in characters and never parses.
pub open spec fn hex_color(text: Seq<char>) -> Option<(u8, u8, u8)> {
    let h = hex_body(text);
    if !all_ascii(h) {
        None
    } else if h.len() == 3 {
        match (hex_val(h[0]), hex_val(h[1]), hex_val(h[2])) {
            (Some(r), Some(g), Some(b)) => Some(((17 * r) as u8, (17 * g) as u8, (17 * b) as u8)),
            _ => None,
        }
    } else if h.len() == 6 {
        match (hex_pair(h[0], h[1]), hex_pair(h[2], h[3]), hex_pair(h[4], h[5])) {
            (Some(r), Some(g), Some(b)) => Some((r as u8, g as u8, b as u8)),
            _ => None,
        }
    } else {
        None
    }
}

fn hex_val_exec(c: char) -> (r: Option<u8>)
    ensures
        match hex_val(c) {
            Some(v) => r == Some(v as u8) && v < 16,
            None => r is None,
        },
{
    if '0' <= c && c <= '9' {
        Some((c as u8) - 48)
    } else if 'a' <= c && c <= 'f' {
        Some((c as u8) - 87)
    } else if 'A' <= c && c <= 'F' {
        Some((c as u8) - 55)
    } else {
        None
    }
}

fn hex_pair_exec(a: char, b: char) -> (r: Option<u8>)
    ensures
        match hex_pair(a, b) {
            Some(v) => r == Some(v as u8) && v < 256,
            None => r is None,
        },
{
    if a == '+' {
        hex_val_exec(b)
    } else {
        match (hex_val_exec(a), hex_val_exec(b)) {
            (Some(x), Some(y)) => Some(16 * x + y),
            _ => None,
        }
    }
}

/// Parse `#rgb` / `#rrggbb` / `rrggbb` into RGB bytes.
pub fn parse_hex_color(text: &str) -> (r: Option<(u8, u8, u8)>)
    ensures
        r == hex_color(text@),
{
    let t = trim_str(text);
    let h = if t.len() > 0 && t[0] == '#' {
        subvec(t.as_slice(), 1, t.len())
    } else {
        t
    };
    assert(h@ =~= hex_body(text@));
    let mut i: usize = 0;
    while i < h.len()
        invariant
            i <= h@.len(),
            h@ == hex_body(text@),
            forall|j: int| 0 <= j < i ==> h@[j] < '\u{80}',
        decreases h.len() - i,
    {
        if h[i] >= '\u{80}' {
            assert(!all_ascii(h@)) by {
                assert(h@[i as int] >= '\u{80}');
            }
            return None;
        }
        i += 1;
    }
    if h.len() == 3 {
        match (hex_val_exec(h[0]), hex_val_exec(h[1]), hex_val_exec(h[2])) {
            (Some(r), Some(g), Some(b)) => Some((17 * r, 17 * g, 17 * b)),
            _ => None,
        }
    } else if h.len() == 6 {
        match (hex_pair_exec(h[0], h[1]), hex_pair_exec(h[2], h[3]), hex_pair_exec(h[4], h[5])) {
            (Some(r), Some(g), Some(b)) => Some((r, g, b)),
            _ => None,
        }
    } else {
        None
    }
}

// ---------------------------------------------------------------------------
// Recolor targets
// ---------------------------------------------------------------------------

/// A group of tintable UI textures inside an installed version.
#[derive(Debug, Clone)]
pub struct RecolorGroup {
    pub id: &'static str,
    pub label: &'static str,
    pub dir: &'static str,
    pub files: Vec<&'static str>,
}

/// Built-in recolor targets (paths relative to the version directory).
pub fn recolor_groups() -> (r: Vec<RecolorGroup>)
    ensures
        r@.len() == 3,
        r@[0].id@ == "cursors"@,
        r@[0].label@ == "Mouse cursors"@,
        r@[0].dir@ == "content/textures/Cursors/KeyboardMouse"@,
        r@[0].files@.len() == 3,
        r@[0].files@[0]@ == "IBeamCursor.png"@,
        r@[0].files@[1]@ == "ArrowCursor.png"@,
        r@[0].files@[2]@ == "ArrowFarCursor.png"@,
        r@[1].id@ == "shiftlock"@,
        r@[1].label@ == "Shift-lock cursor"@,
        r@[1].dir@ == "content/textures"@,
        r@[1].files@.len() == 1,
        r@[1].files@[0]@ == "MouseLockedCursor.png"@,
        r@[2].id@ == "emote"@,
        r@[2].label@ == "Emote wheel selection"@,
        r@[2].dir@ == "content/textures/ui/Emotes/Large"@,
        r@[2].files@.len() == 6,
        r@[2].files@[0]@ == "SelectedGradient.png"@,
        r@[2].files@[1]@ == "SelectedGradient@2x.png"@,
        r@[2].files@[2]@ == "SelectedGradient@3x.png"@,
        r@[2].files@[3]@ == "SelectedLine.png"@,
        r@[2].files@[4]@ == "SelectedLine@2x.png"@,
        r@[2].files@[5]@ == "SelectedLine@3x.png"@,
{
    vec![
        RecolorGroup {
            id: "cursors",
            label: "Mouse cursors",
            dir: "content/textures/Cursors/KeyboardMouse",
            files: vec!["IBeamCursor.png", "ArrowCursor.png", "ArrowFarCursor.png"],
        },
        RecolorGroup {
            id: "shiftlock",
            label: "Shift-lock cursor",
            dir: "content/textures",
            files: vec!["MouseLockedCursor.png"],
        },
        RecolorGroup {
            id: "emote",
            label: "Emote wheel selection",
            dir: "content/textures/ui/Emotes/Large",
            files: vec![
                "SelectedGradient.png",
                "SelectedGradient@2x.png",
                "SelectedGradient@3x.png",
                "SelectedLine.png",
                "SelectedLine@2x.png",
                "SelectedLine@3x.png",
            ],
        },
    ]
}

/// Outcome of a recolor pass.
#[derive(Debug, Clone)]
pub struct RecolorReport {
    pub recolored: usize,
    pub missing: Vec<String>,
    pub failed: Vec<String>,
}

impl Default for RecolorReport {
    fn default() -> (r: Self)
        ensures
            r.recolored == 0,
            r.missing@ == Seq::<String>::empty(),
            r.failed@ == Seq::<String>::empty(),
    {
        RecolorReport { recolored: 0, missing: Vec::new(), failed: Vec::new() }
    }
}

/// `dir/file` for every file of every group, in order.
pub open spec fn group_targets(groups: Seq<RecolorGroup>) -> Seq<Seq<char>>
    decreases groups.len(),
{
    if groups.len() == 0 {
        Seq::empty()
    } else {
        let g = groups.last();
        group_targets(groups.drop_last()) + g.files@.map_values(
            |f: &'static str| g.dir@ + seq!['/'] + f@,
        )
    }
}

/// An extra path after trimming whitespace, then slashes of either kind at
/// both ends, with backslashes turned into slashes.
pub open spec fn clean_extra(e: Seq<char>) -> Seq<char> {
    trim_set(trim(e), seq!['/', '\\']).map_values(|c: char| if c == '\\' { '/' } else { c })
}

/// An extra path is used when its cleaned form is non-empty and holds no
/// `..`.
pub open spec fn extra_accepted(e: Seq<char>) -> bool {
    clean_extra(e).len() > 0 && !contains_sub(clean_extra(e), seq!['.', '.'])
}

/// The cleaned accepted extra paths, in order.
pub open spec fn accepted_extras(extras: Seq<String>) -> Seq<Seq<char>>
    decreases extras.len(),
{
    if extras.len() == 0 {
        Seq::empty()
    } else {
        let rest = accepted_extras(extras.drop_last());
        if extra_accepted(extras.last()@) {
            rest.push(clean_extra(extras.last()@))
        } else {
            rest
        }
    }
}

/// `<extra>: rejected unsafe path` for each rejected extra path, in order.
pub open spec fn rejected_extras(extras: Seq<String>) -> Seq<Seq<char>>
    decreases extras.len(),
{
    if extras.len() == 0 {
        Seq::empty()
    } else {
        let rest = rejected_extras(extras.drop_last());
        if extra_accepted(extras.last()@) {
            rest
        } else {
            rest.push(extras.last()@ + ": rejected unsafe path"@)
        }
    }
}

pub open spec fn views(v: Seq<String>) -> Seq<Seq<char>> {
    v.map_values(|s: String| s@)
}

proof fn lemma_views_push(v: Seq<String>, x: String)
    ensures
        views(v.push(x)) == views(v).push(x@),
{
    assert(views(v.push(x)) =~= views(v).push(x@));
}

fn clean_extra_exec(e: &str) -> (r: Vec<char>)
    ensures
        r@ == clean_extra(e@),
{
    let t = trim_str(e);
    let set: [char; 2] = ['/', '\\'];
    assert(set@ =~= seq!['/', '\\']);
    let c = trim_set_vec(t.as_slice(), &set);
    let mut r: Vec<char> = Vec::new();
    let mut i: usize = 0;
    while i < c.len()
        invariant
            i <= c@.len(),
            r@ == c@.map_values(|ch: char| if ch == '\\' { '/' } else { ch }).take(i as int),
        decreases c.len() - i,
    {
        let ch = c[i];
        r.push(if ch == '\\' { '/' } else { ch });
        i += 1;
        assert(r@ =~= c@.map_values(|ch: char| if ch == '\\' { '/' } else { ch }).take(i as int));
    }
    assert(r@ =~= c@.map_values(|ch: char| if ch == '\\' { '/' } else { ch }));
    r
}

/// The relative paths a recolor pass tints: every file of the selected
/// groups, then each extra path that is safe once cleaned. Rejected extra
/// paths come back as failure messages.
pub fn recolor_targets(groups: &[RecolorGroup], extra_relative_paths: &[String]) -> (r: (
    Vec<String>,
    Vec<String>,
))
    ensures
        views(r.0@) == group_targets(groups@) + accepted_extras(extra_relative_paths@),
        views(r.1@) == rejected_extras(extra_relative_paths@),
{
    let mut targets: Vec<String> = Vec::new();
    let mut g: usize = 0;
    while g < groups.len()
        invariant
            g <= groups@.len(),
            views(targets@) == group_targets(groups@.take(g as int)),
        decreases groups.len() - g,
    {
        let group = &groups[g];
        let ghost before = targets@;
        let mut f: usize = 0;
        while f < group.files.len()
            invariant
                g < groups@.len(),
                f <= group.files@.len(),
                *group == groups@[g as int],
                views(targets@) == views(before) + group.files@.take(f as int).map_values(
                    |x: &'static str| group.dir@ + seq!['/'] + x@,
                ),
            decreases group.files.len() - f,
        {
            let mut s = String::new();
            push_str(&mut s, group.dir);
            push_char(&mut s, '/');
            push_str(&mut s, group.files[f]);
            assert(s@ == group.dir@ + seq!['/'] + group.files@[f as int]@);
            let ghost prev = targets@;
            targets.push(s);
            proof {
                lemma_views_push(prev, s);
                assert(group.files@.take(f + 1) =~= group.files@.take(f as int).push(group.files@[f as int]));
            }
            f += 1;
            assert(views(targets@) =~= views(before) + group.files@.take(f as int).map_values(
                |x: &'static str| group.dir@ + seq!['/'] + x@,
            ));
        }
        assert(group.files@.take(group.files@.len() as int) =~= group.files@);
        assert(groups@.take(g + 1).drop_last() =~= groups@.take(g as int));
        g += 1;
        assert(views(targets@) =~= group_targets(groups@.take(g as int)));
    }
    assert(groups@.take(groups@.len() as int) =~= groups@);
    let ghost base = targets@;
    let mut rejected: Vec<String> = Vec::new();
    let mut i: usize = 0;
    while i < extra_relative_paths.len()
        invariant
            i <= extra_relative_paths@.len(),
            views(base) == group_targets(groups@),
            views(targets@) == views(base) + accepted_extras(extra_relative_paths@.take(i as int)),
            views(rejected@) == rejected_extras(extra_relative_paths@.take(i as int)),
        decreases extra_relative_paths.len() - i,
    {
        let extra = &extra_relative_paths[i];
        let clean = clean_extra_exec(extra.as_str());
        let bad = find_sub_str(clean.as_slice(), "..", 0);
        proof {
            reveal_strlit("..");
            assert(".."@ =~= seq!['.', '.']);
        }
        assert(extra_relative_paths@.take(i + 1).drop_last() =~= extra_relative_paths@.take(
            i as int,
        ));
        if clean.len() == 0 || bad.is_some() {
            let mut msg = String::new();
            push_str(&mut msg, extra.as_str());
            push_str(&mut msg, ": rejected unsafe path");
            let ghost prev = rejected@;
            rejected.push(msg);
            proof {
                lemma_views_push(prev, msg);
                reveal_strlit(": rejected unsafe path");
            }
            assert(views(rejected@) =~= rejected_extras(extra_relative_paths@.take(i + 1)));
            assert(views(targets@) =~= views(base) + accepted_extras(extra_relative_paths@.take(
                i + 1,
            )));
        } else {
            let ghost prev = targets@;
            let item = string_of(clean.as_slice());
            targets.push(item);
            proof {
                lemma_views_push(prev, item);
                assert(extra_accepted(extra@));
            }
            assert(views(targets@) =~= views(base) + accepted_extras(extra_relative_paths@.take(
                i + 1,
            )));
        }
        i += 1;
    }
    assert(extra_relative_paths@.take(extra_relative_paths@.len() as int)
        =~= extra_relative_paths@);
    (targets, rejected)
}

// ---------------------------------------------------------------------------
// Tinting
// ---------------------------------------------------------------------------

/// An RGBA buffer with the RGB channels of every pixel set to `color` and
/// alpha kept, so shapes and soft edges survive.
pub open spec fn tinted(raw: Seq<u8>, color: (u8, u8, u8)) -> Seq<u8> {
    Seq::new(
        raw.len(),
        |i: int|
            if i % 4 == 0 {
                color.0
            } else if i % 4 == 1 {
                color.1
            } else if i % 4 == 2 {
                color.2
            } else {
                raw[i]
            },
    )
}

/// Set the RGB channels of every pixel to `color`, keeping alpha.
pub fn tint_rgba(raw: &mut Vec<u8>, color: (u8, u8, u8))
    ensures
        final(raw)@ == tinted(old(raw)@, color),
{
    let ghost orig = raw@;
    let n = raw.len();
    let mut i: usize = 0;
    while i < n
        invariant
            n == orig.len(),
            raw@.len() == n,
            i <= n,
            forall|j: int| 0 <= j < i ==> raw@[j] == tinted(orig, color)[j],
            forall|j: int| i <= j < n ==> raw@[j] == orig[j],
        decreases n - i,
    {
        let k = i % 4;
        if k == 0 {
            raw.set(i, color.0);
        } else if k == 1 {
            raw.set(i, color.1);
        } else if k == 2 {
            raw.set(i, color.2);
        }
        i += 1;
    }
    assert(raw@ =~= tinted(orig, color));
}

/// Tint a PNG file's pixels: decode it, replace the RGB channels while
/// keeping alpha, and encode it again.
pub fn tint_png(bytes: &[u8], color: (u8, u8, u8)) -> (r: Result<Vec<u8>, RedStrapError>)
    ensures
        match png_rgba(bytes@) {
            None => r matches Err(e) && e is Image,
            Some(img) => match png_encoded(img.0, img.1, tinted(img.2, color)) {
                Some(out) => r matches Ok(v) && v@ == out,
                None => r matches Err(e) && e is Mod,
            },
        },
{
    let (width, height, mut raw) = match decode_png_rgba(bytes) {
        Ok(t) => t,
        Err(e) => return Err(RedStrapError::Image(e)),
    };
    tint_rgba(&mut raw, color);
    match encode_png_rgba(width, height, raw.as_slice()) {
        Ok(v) => Ok(v),
        Err(e) => {
            let mut m = String::new();
            push_str(&mut m, "could not encode PNG: ");
            push_str(&mut m, e.as_str());
            Err(RedStrapError::Mod(m))
        },
    }
}

impl RecolorReport {
    /// Record a target whose file does not exist.
    pub fn note_missing(&mut self, target: String)
        ensures
            views(final(self).missing@) == views(old(self).missing@).push(target@),
            final(self).failed@ == old(self).failed@,
            final(self).recolored == old(self).recolored,
    {
        let ghost before = self.missing@;
        self.missing.push(target);
        proof {
            lemma_views_push(before, target);
        }
    }

    /// Record the outcome of tinting a target: a success is counted, a
    /// failure recorded as `<target>: <reason>`.
    pub fn note_outcome(&mut self, target: &str, outcome: Result<(), String>)
        requires
            old(self).recolored < usize::MAX,
        ensures
            final(self).missing@ == old(self).missing@,
            outcome is Ok ==> final(self).recolored == old(self).recolored + 1
                && final(self).failed@ == old(self).failed@,
            outcome matches Err(m) ==> final(self).recolored == old(self).recolored && views(
                final(self).failed@,
            ) == views(old(self).failed@).push(target@ + ": "@ + m@),
    {
        match outcome {
            Ok(()) => {
                self.recolored = self.recolored + 1;
            },
            Err(m) => {
                let mut line = String::new();
                push_str(&mut line, target);
                push_str(&mut line, ": ");
                push_str(&mut line, m.as_str());
                let ghost before = self.failed@;
                self.failed.push(line);
                proof {
                    lemma_views_push(before, line);
                }
            },
        }
    }
}

// ---------------------------------------------------------------------------
// Recolor requests
// ---------------------------------------------------------------------------

/// One install considered for a recolor: the app, whether the user picked
/// it, whether a version is recorded for it, and whether that version's
/// executable is present.
#[derive(Debug, Clone, Copy)]
pub struct RecolorCandidate {
    pub mode: LaunchMode,
    pub wanted: bool,
    pub installed: bool,
    pub exe_present: bool,
}

/// What happens to a picked install.
#[derive(Debug, Clone)]
pub enum RecolorStep {
    /// Recolor its version directory.
    Start(LaunchMode),
    /// Leave it, telling the user why.
    Skip(String),
}

pub enum RecolorStepView {
    Start(LaunchMode),
    Skip(Seq<char>),
}

pub open spec fn step_view(s: RecolorStep) -> RecolorStepView {
    match s {
        RecolorStep::Start(m) => RecolorStepView::Start(m),
        RecolorStep::Skip(t) => RecolorStepView::Skip(t@),
    }
}

pub open spec fn mode_label(m: LaunchMode) -> Seq<char> {
    match m {
        LaunchMode::Player => "Roblox Player"@,
        LaunchMode::Studio => "Roblox Studio"@,
        LaunchMode::StudioAuth => "Roblox Studio"@,
    }
}

/// The steps for the candidates, in order: nothing for one not picked, a
/// skip for one not installed or with its executable missing, else a start.
pub open spec fn recolor_steps_spec(cs: Seq<RecolorCandidate>) -> Seq<RecolorStepView>
    decreases cs.len(),
{
    if cs.len() == 0 {
        Seq::empty()
    } else {
        let rest = recolor_steps_spec(cs.drop_last());
        let c = cs.last();
        if !c.wanted {
            rest
        } else if !c.installed {
            rest.push(RecolorStepView::Skip(mode_label(c.mode) + " is not installed \u{2014} skipped"@))
        } else if !c.exe_present {
            rest.push(RecolorStepView::Skip(mode_label(c.mode) + " install damaged \u{2014} skipped"@))
        } else {
            rest.push(RecolorStepView::Start(c.mode))
        }
    }
}

/// Decide, install by install, which version directories a recolor runs on.
pub fn recolor_steps(candidates: &[RecolorCandidate]) -> (r: Vec<RecolorStep>)
    ensures
        r@.map_values(|s: RecolorStep| step_view(s)) == recolor_steps_spec(candidates@),
{
    let mut out: Vec<RecolorStep> = Vec::new();
    let mut i: usize = 0;
    while i < candidates.len()
        invariant
            i <= candidates@.len(),
            out@.map_values(|s: RecolorStep| step_view(s)) == recolor_steps_spec(
                candidates@.take(i as int),
            ),
        decreases candidates.len() - i,
    {
        let c = candidates[i];
        assert(candidates@.take(i + 1).drop_last() =~= candidates@.take(i as int));
        assert(candidates@.take(i + 1).last() == c);
        let ghost before = out@;
        if c.wanted {
            let step = if !c.installed {
                let mut t = str_to_string(c.mode.label());
                push_str(&mut t, " is not installed \u{2014} skipped");
                RecolorStep::Skip(t)
            } else if !c.exe_present {
                let mut t = str_to_string(c.mode.label());
                push_str(&mut t, " install damaged \u{2014} skipped");
                RecolorStep::Skip(t)
            } else {
                RecolorStep::Start(c.mode)
            };
            out.push(step);
            assert(out@.map_values(|s: RecolorStep| step_view(s)) =~= before.map_values(
                |s: RecolorStep| step_view(s),
            ).push(step_view(step)));
        }
        i += 1;
    }
    assert(candidates@.take(candidates@.len() as int) =~= candidates@);
    out
}

/// The extra recolor paths typed one per line: each line trimmed, blank
/// lines dropped.
pub open spec fn extra_lines(s: Seq<char>, n: int) -> Seq<Seq<char>>
    decreases n,
{
    if n <= 0 {
        Seq::empty()
    } else {
        let rest = extra_lines(s, n - 1);
        let t = trim(line_at(s, n - 1));
        if t.len() > 0 {
            rest.push(t)
        } else {
            rest
        }
    }
}

pub fn extra_paths(text: &str) -> (r: Vec<String>)
    ensures
        r@.map_values(|x: String| x@) == extra_lines(text@, line_count(text@)),
{
    let ls = lines_exec(chars_of(text).as_slice());
    let n = ls.len();
    let mut out: Vec<String> = Vec::new();
    let mut k: usize = 0;
    while k < n
        invariant
            n == ls@.len(),
            n == line_count(text@),
            k <= n,
            forall|j: int| 0 <= j < ls@.len() ==> #[trigger] ls@[j]@ == line_at(text@, j),
            out@.map_values(|x: String| x@) == extra_lines(text@, k as int),
        decreases n - k,
    {
        let t = trim_vec(ls[k].as_slice());
        let ghost before = out@;
        if t.len() > 0 {
            out.push(string_of(t.as_slice()));
            assert(out@.map_values(|x: String| x@) =~= before.map_values(|x: String| x@).push(
                trim(line_at(text@, k as int)),
            ));
        }
        k += 1;
    }
    out
}

// ---------------------------------------------------------------------------
// Mod folder order
// ---------------------------------------------------------------------------

/// Folders whose names start with `.` hold markers, not mods.
pub open spec fn is_mod_folder(name: Seq<char>) -> bool {
    !(name.len() > 0 && name[0] == '.')
}

/// The mod folders among `names`, in the order given.
pub open spec fn mod_folder_names(names: Seq<Seq<char>>) -> Seq<Seq<char>>
    decreases names.len(),
{
    if names.len() == 0 {
        names
    } else {
        let rest = mod_folder_names(names.drop_last());
        if is_mod_folder(names.last()) {
            rest.push(names.last())
        } else {
            rest
        }
    }
}

/// `n` placed after every name of `s` that does not sort after it when
/// lower-cased, and before the names after it.
pub open spec fn insert_name(s: Seq<Seq<char>>, n: Seq<char>) -> Seq<Seq<char>>
    decreases s.len(),
{
    if s.len() == 0 {
        seq![n]
    } else if key_lt(lower(n), lower(s.last())) {
        insert_name(s.drop_last(), n).push(s.last())
    } else {
        s.push(n)
    }
}

/// The names stably sorted ignoring ASCII case.
pub open spec fn sort_names(s: Seq<Seq<char>>) -> Seq<Seq<char>>
    decreases s.len(),
{
    if s.len() == 0 {
        s
    } else {
        insert_name(sort_names(s.drop_last()), s.last())
    }
}

proof fn lemma_insert_name_at(s: Seq<Seq<char>>, n: Seq<char>, p: int)
    requires
        0 <= p <= s.len(),
        forall|j: int| p <= j < s.len() ==> key_lt(lower(n), lower(#[trigger] s[j])),
        p > 0 ==> !key_lt(lower(n), lower(s[p - 1])),
    ensures
        insert_name(s, n) == s.insert(p, n),
    decreases s.len(),
{
    if s.len() == 0 {
        assert(s.insert(p, n) =~= seq![n]);
    } else if p == s.len() {
        assert(s.insert(p, n) =~= s.push(n));
    } else {
        let d = s.drop_last();
        assert(key_lt(lower(n), lower(s[s.len() - 1])));
        assert forall|j: int| p <= j < d.len() implies key_lt(lower(n), lower(#[trigger] d[j])) by {
            assert(d[j] == s[j]);
        }
        if p > 0 {
            assert(d[p - 1] == s[p - 1]);
        }
        lemma_insert_name_at(d, n, p);
        assert(d.insert(p, n).push(s.last()) =~= s.insert(p, n));
    }
}

/// The mod folders among the folder names found, sorted by name ignoring
/// ASCII case (names differing only in case keep their order).
pub fn mod_folders(names: &[String]) -> (r: Vec<String>)
    ensures
        r@.map_values(|x: String| x@) == sort_names(
            mod_folder_names(names@.map_values(|x: String| x@)),
        ),
{
    let ghost all = names@.map_values(|x: String| x@);
    let mut out: Vec<String> = Vec::new();
    let mut i: usize = 0;
    while i < names.len()
        invariant
            i <= names@.len(),
            all == names@.map_values(|x: String| x@),
            out@.map_values(|x: String| x@) == sort_names(mod_folder_names(all.take(i as int))),
        decreases names.len() - i,
    {
        assert(all.take(i + 1).drop_last() =~= all.take(i as int));
        assert(all.take(i + 1).last() == names@[i as int]@);
        let name = names[i].as_str();
        let v = chars_of(name);
        let hidden = v.len() > 0 && v[0] == '.';
        if !hidden {
            let ghost s = out@.map_values(|x: String| x@);
            let ghost kept = mod_folder_names(all.take(i as int));
            assert(kept.push(name@).drop_last() =~= kept);
            let key = lower_vec(v.as_slice());
            let mut p: usize = out.len();
            let mut searching = true;
            while searching && p > 0
                invariant
                    p <= out@.len(),
                    s == out@.map_values(|x: String| x@),
                    key@ == lower(name@),
                    forall|j: int| p <= j < s.len() ==> key_lt(lower(name@), lower(#[trigger] s[j])),
                    !searching ==> p > 0 && !key_lt(lower(name@), lower(s[p - 1])),
                decreases p + if searching { 1int } else { 0int },
            {
                let other = lower_vec(chars_of(out[p - 1].as_str()).as_slice());
                assert(s[p - 1] == out@[p - 1]@);
                if key_less(key.as_slice(), other.as_slice()) {
                    p = p - 1;
                } else {
                    searching = false;
                }
            }
            proof {
                lemma_insert_name_at(s, name@, p as int);
            }
            out.insert(p, str_to_string(name));
            assert(out@.map_values(|x: String| x@) =~= s.insert(p as int, name@));
        }
        i += 1;
    }
    assert(all.take(names@.len() as int) =~= all);
    out
}

} // verus!
