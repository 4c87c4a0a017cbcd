//! Windows shortcut (`.lnk`) encoder.
//!
//! Writes the subset of MS-SHLLINK needed for application shortcuts: a
//! `ShellLinkHeader`, `LinkInfo` with Unicode path extensions, `StringData`
//! (description, working directory, arguments, icon), and the terminal
//! block. No target ID list is emitted: Explorer resolves these links
//! through `LinkInfo`, whose Unicode offsets keep non-ASCII paths working.

use vstd::prelude::*;
use vstd::utf8::encode_utf8;

use crate::encoding::{
    ascii_mask, le16, le32, lemma_units_le_len, lemma_utf16_len, lemma_utf8_len, push_ascii_mask,
    push_le16, push_le32, push_units_le, push_zeros, units_le, utf16, encode_utf16, zeros,
    lemma_units_le_append,
};
use crate::text::{
    chars_of, contains_char, lemma_split_char_len, push_char, push_chars, split_char,
    split_char_exec, string_of, subvec, trim, trim_str,
};

verus! {

// LinkFlags bits.
pub const HAS_LINK_INFO: u32 = 0x0000_0002;
pub const HAS_NAME: u32 = 0x0000_0004;
pub const HAS_WORKING_DIR: u32 = 0x0000_0010;
pub const HAS_ARGUMENTS: u32 = 0x0000_0020;
pub const HAS_ICON_LOCATION: u32 = 0x0000_0040;
pub const IS_UNICODE: u32 = 0x0000_0080;

// LinkInfoFlags bits.
pub const VOLUME_ID_AND_LOCAL_BASE_PATH: u32 = 0x0000_0001;

/// Longest target path, in characters, whose `LinkInfo` offsets fit in the
/// 32-bit fields of the format.
pub const MAX_TARGET_CHARS: usize = 0x0FFF_FFF0;

/// The shell link class identifier `00021401-0000-0000-C000-000000000046`
/// in its mixed-endian binary form.
pub open spec fn link_clsid() -> Seq<u8> {
    seq![0x01u8, 0x14, 0x02, 0x00, 0x00, 0x00, 0x00, 0x00, 0xC0, 0x00, 0x00, 0x00, 0x00, 0x00, 0x00, 0x46]
}

/// Shortcut definition. All paths accept `/` or `\` separators.
#[derive(Debug, Clone)]
pub struct ShortcutSpec {
    /// Executable the shortcut launches.
    pub target: String,
    /// Command-line arguments (may be empty).
    pub args: String,
    /// Working directory (defaults to the target's folder).
    pub working_dir: String,
    /// Icon source (`None` reuses the target's own icon).
    pub icon: Option<String>,
    /// Description shown in tooltips / properties.
    pub description: Option<String>,
}

pub open spec fn opt_view(o: Option<String>) -> Option<Seq<char>> {
    match o {
        Some(s) => Some(s@),
        None => None,
    }
}

/// Every `/` turned into `\`.
pub open spec fn windows_path(s: Seq<char>) -> Seq<char> {
    s.map_values(|c: char| if c == '/' { '\\' } else { c })
}

/// Position of the last `/` or `\` in `s` before `j`.
pub open spec fn last_sep_before(s: Seq<char>, j: int) -> Option<int>
    decreases j,
{
    if j <= 0 {
        None
    } else if s[j - 1] == '/' || s[j - 1] == '\\' {
        Some(j - 1)
    } else {
        last_sep_before(s, j - 1)
    }
}

/// The folder of a file path: everything before its last separator (the
/// separator kept when the folder is a root such as `C:\` or `/`), or
/// `None` when the path has no separator.
pub open spec fn target_folder(s: Seq<char>) -> Option<Seq<char>> {
    match last_sep_before(s, s.len() as int) {
        None => None,
        Some(i) => Some(
            if i == 0 || s[i - 1] == ':' {
                s.take(i + 1)
            } else {
                s.take(i)
            },
        ),
    }
}

/// The last piece after `\` when it is non-empty, else the whole path.
pub open spec fn file_name_of(t: Seq<char>) -> Seq<char> {
    let ps = split_char(t, '\\');
    if ps.len() > 0 && ps.last().len() > 0 {
        ps.last()
    } else {
        t
    }
}

/// The working directory written into the link.
pub open spec fn effective_working_dir(target: Seq<char>, working_dir: Seq<char>) -> Seq<char> {
    if trim(working_dir).len() == 0 {
        match target_folder(windows_path(target)) {
            Some(f) => f,
            None => "C:\\"@,
        }
    } else {
        windows_path(working_dir)
    }
}

pub open spec fn present(o: Option<Seq<char>>) -> bool {
    o is Some && o->0.len() > 0
}

/// The LinkFlags of a shortcut.
pub open spec fn lnk_flags(
    args: Seq<char>,
    wd: Seq<char>,
    icon: Option<Seq<char>>,
    description: Option<Seq<char>>,
) -> int {
    (HAS_LINK_INFO + IS_UNICODE) + (if present(description) {
        HAS_NAME as int
    } else {
        0
    }) + (if wd.len() > 0 {
        HAS_WORKING_DIR as int
    } else {
        0
    }) + (if args.len() > 0 {
        HAS_ARGUMENTS as int
    } else {
        0
    }) + (if present(icon) {
        HAS_ICON_LOCATION as int
    } else {
        0
    })
}

/// `ShellLinkHeader`: size, class id, flags, zero attributes, times, size
/// and icon index, `SW_SHOWNORMAL`, no hot key, reserved zeros.
pub open spec fn lnk_header(flags: int) -> Seq<u8> {
    le32(76) + link_clsid() + le32(flags) + zeros(36) + le32(1) + zeros(12)
}

/// A minimal `VolumeID`: fixed drive, no serial, empty label.
pub open spec fn volume_id() -> Seq<u8> {
    le32(17) + le32(3) + le32(0) + le32(16) + seq![0u8]
}

pub open spec fn ansi_z(s: Seq<char>) -> Seq<u8> {
    ascii_mask(encode_utf8(s)).push(0u8)
}

pub open spec fn wide_z(s: Seq<char>) -> Seq<u8> {
    units_le(utf16(s).push(0u16))
}

/// `LinkInfo` for a local path and its final component; offsets count from
/// the start of the structure.
pub open spec fn link_info(full: Seq<char>, name: Seq<char>) -> Seq<u8> {
    let o = link_info_offsets(full, name);
    link_info_fields(o.3, o.0, o.1, o.2) + volume_id() + ansi_z(full)
        + ansi_z(name) + wide_z(full) + wide_z(name)
}

/// A `StringData` entry: the UTF-16 length, capped at `u16::MAX`, then that
/// many code units.
pub open spec fn string_data(text: Seq<char>) -> Seq<u8> {
    let u = utf16(text);
    let n = if u.len() <= 0xFFFF {
        u.len() as int
    } else {
        0xFFFF
    };
    le16(n) + units_le(u.take(n))
}

/// IconLocation text, `path,index`; `,0` is added when no index is given.
pub open spec fn icon_location(icon: Seq<char>) -> Seq<char> {
    if icon.contains(',') {
        icon
    } else {
        icon + ",0"@
    }
}

pub open spec fn optional_string(on: bool, text: Seq<char>) -> Seq<u8> {
    if on {
        string_data(text)
    } else {
        Seq::empty()
    }
}

/// The complete `.lnk` file for a shortcut.
pub open spec fn lnk_bytes(
    target: Seq<char>,
    args: Seq<char>,
    working_dir: Seq<char>,
    icon: Option<Seq<char>>,
    description: Option<Seq<char>>,
) -> Seq<u8> {
    let t = windows_path(target);
    let wd = effective_working_dir(target, working_dir);
    let flags = lnk_flags(args, wd, icon, description);
    lnk_header(flags) + link_info(t, file_name_of(t))
        + optional_string(present(description), description.unwrap_or(Seq::empty()))
        + optional_string(wd.len() > 0, wd) + optional_string(args.len() > 0, args)
        + optional_string(present(icon), icon_location(icon.unwrap_or(Seq::empty()))) + le32(0)
}

pub proof fn lemma_split_piece_len(s: Seq<char>, d: char)
    ensures
        forall|k: int| 0 <= k < split_char(s, d).len() ==> #[trigger] split_char(s, d)[k].len() <= s.len(),
    decreases s.len(),
{
    if s.len() > 0 {
        lemma_split_piece_len(s.drop_last(), d);
        lemma_split_char_len(s.drop_last(), d);
    }
}

impl ShortcutSpec {
    /// A shortcut to `target` with no arguments, icon or description; the
    /// working directory is the target's folder (empty when the target has
    /// no folder part).
    pub fn new(target: &str) -> (r: Self)
        ensures
            r.target@ == target@,
            r.args@ == Seq::<char>::empty(),
            r.working_dir@ == match target_folder(target@) {
                Some(f) => f,
                None => Seq::<char>::empty(),
            },
            r.icon is None,
            r.description is None,
    {
        let t = chars_of(target);
        let working_dir = match folder_exec(t.as_slice()) {
            Some(f) => string_of(f.as_slice()),
            None => String::new(),
        };
        ShortcutSpec {
            target: target.to_owned(),
            args: String::new(),
            working_dir,
            icon: None,
            description: None,
        }
    }
}

fn windows_path_exec(s: &str) -> (r: Vec<char>)
    ensures
        r@ == windows_path(s@),
{
    let v = chars_of(s);
    let mut r: Vec<char> = Vec::new();
    let mut i: usize = 0;
    while i < v.len()
        invariant
            i <= v@.len(),
            v@ == s@,
            r@ == windows_path(v@).take(i as int),
        decreases v.len() - i,
    {
        let c = v[i];
        r.push(if c == '/' { '\\' } else { c });
        i += 1;
        assert(r@ =~= windows_path(v@).take(i as int));
    }
    assert(windows_path(v@).take(v@.len() as int) =~= windows_path(v@));
    r
}

/// The folder of the path `s` (see [`target_folder`]).
fn folder_exec(s: &[char]) -> (r: Option<Vec<char>>)
    ensures
        match target_folder(s@) {
            Some(f) => r matches Some(v) && v@ == f,
            None => r is None,
        },
        r matches Some(v) ==> v@.len() <= s@.len(),
{
    let n = s.len();
    let mut j: usize = n;
    while j > 0 && !(s[j - 1] == '/' || s[j - 1] == '\\')
        invariant
            j <= n,
            n == s@.len(),
            last_sep_before(s@, n as int) == last_sep_before(s@, j as int),
        decreases j,
    {
        j = j - 1;
    }
    if j == 0 {
        return None;
    }
    let i = j - 1;
    if i == 0 || s[i - 1] == ':' {
        Some(subvec(s, 0, i + 1))
    } else {
        Some(subvec(s, 0, i))
    }
}

fn file_name_exec(t: &[char]) -> (r: Vec<char>)
    ensures
        r@ == file_name_of(t@),
{
    let ps = split_char_exec(t, '\\');
    if ps.len() > 0 && ps[ps.len() - 1].len() > 0 {
        let p = &ps[ps.len() - 1];
        subvec(p.as_slice(), 0, p.len())
    } else {
        subvec(t, 0, t.len())
    }
}

fn push_header(out: &mut Vec<u8>, flags: u32)
    ensures
        final(out)@ == old(out)@ + lnk_header(flags as int),
{
    push_le32(out, 76);
    out.push(0x01);
    out.push(0x14);
    out.push(0x02);
    out.push(0x00);
    out.push(0x00);
    out.push(0x00);
    out.push(0x00);
    out.push(0x00);
    out.push(0xC0);
    out.push(0x00);
    out.push(0x00);
    out.push(0x00);
    out.push(0x00);
    out.push(0x00);
    out.push(0x00);
    out.push(0x46);
    push_le32(out, flags);
    push_zeros(out, 36);
    push_le32(out, 1);
    push_zeros(out, 12);
    assert(final(out)@ =~= old(out)@ + lnk_header(flags as int));
}

fn wide_z_exec(s: &[char]) -> (r: Vec<u16>)
    ensures
        r@ == utf16(s@).push(0u16),
{
    let mut u = encode_utf16(s);
    u.push(0u16);
    u
}

/// The fixed fields of `LinkInfo`, up to the volume id.
pub open spec fn link_info_fields(
    total: int,
    suffix_off: int,
    uni_base_off: int,
    uni_suffix_off: int,
) -> Seq<u8> {
    le32(total) + le32(36) + le32(VOLUME_ID_AND_LOCAL_BASE_PATH as int) + le32(36) + le32(53)
        + le32(0) + le32(suffix_off) + le32(uni_base_off) + le32(uni_suffix_off)
}

fn push_link_info_fields(
    out: &mut Vec<u8>,
    total: u32,
    suffix_off: u32,
    uni_base_off: u32,
    uni_suffix_off: u32,
)
    ensures
        final(out)@ == old(out)@ + link_info_fields(
            total as int,
            suffix_off as int,
            uni_base_off as int,
            uni_suffix_off as int,
        ),
{
    let ghost start = out@;
    push_le32(out, total);
    push_le32(out, 36);
    push_le32(out, VOLUME_ID_AND_LOCAL_BASE_PATH);
    push_le32(out, 36);
    push_le32(out, 53);
    push_le32(out, 0);
    push_le32(out, suffix_off);
    push_le32(out, uni_base_off);
    push_le32(out, uni_suffix_off);
    assert(out@ =~= start + link_info_fields(
        total as int,
        suffix_off as int,
        uni_base_off as int,
        uni_suffix_off as int,
    ));
}

fn push_volume_id(out: &mut Vec<u8>)
    ensures
        final(out)@ == old(out)@ + volume_id(),
{
    let ghost start = out@;
    push_le32(out, 17);
    push_le32(out, 3);
    push_le32(out, 0);
    push_le32(out, 16);
    out.push(0u8);
    assert(out@ =~= start + volume_id());
}

fn push_ansi_z(out: &mut Vec<u8>, s: &str)
    ensures
        final(out)@ == old(out)@ + ansi_z(s@),
{
    let ghost start = out@;
    push_ascii_mask(out, s);
    out.push(0u8);
    assert(out@ =~= start + ansi_z(s@));
}

/// The `LinkInfo` offsets of the ANSI suffix, the Unicode base path, the
/// Unicode suffix, and the total size.
pub open spec fn link_info_offsets(full: Seq<char>, name: Seq<char>) -> (int, int, int, int) {
    let suffix_off: int = 53int + ansi_z(full).len();
    let uni_base_off: int = suffix_off + ansi_z(name).len();
    let uni_suffix_off: int = uni_base_off + wide_z(full).len();
    let total: int = uni_suffix_off + wide_z(name).len();
    (suffix_off, uni_base_off, uni_suffix_off, total)
}

fn offsets_exec(full: &[char], name: &[char]) -> (r: (u32, u32, u32, u32))
    requires
        full@.len() <= MAX_TARGET_CHARS,
        name@.len() <= full@.len(),
    ensures
        r.0 as int == link_info_offsets(full@, name@).0,
        r.1 as int == link_info_offsets(full@, name@).1,
        r.2 as int == link_info_offsets(full@, name@).2,
        r.3 as int == link_info_offsets(full@, name@).3,
{
    let full_s = string_of(full);
    let name_s = string_of(name);
    let n_full = encode_utf16(full).len();
    let n_name = encode_utf16(name).len();
    proof {
        lemma_utf8_len(full@);
        lemma_utf8_len(name@);
        lemma_utf16_len(full@);
        lemma_utf16_len(name@);
        lemma_units_le_len(utf16(full@).push(0u16));
        lemma_units_le_len(utf16(name@).push(0u16));
        assert(ascii_mask(encode_utf8(full@)).len() == encode_utf8(full@).len());
        assert(ascii_mask(encode_utf8(name@)).len() == encode_utf8(name@).len());
    }
    let a_full: usize = full_s.as_str().as_bytes().len();
    let a_name: usize = name_s.as_str().as_bytes().len();
    let suffix_off: u32 = 53 + (a_full + 1) as u32;
    let uni_base_off: u32 = suffix_off + (a_name + 1) as u32;
    let uni_suffix_off: u32 = uni_base_off + (2 * (n_full + 1)) as u32;
    let total: u32 = uni_suffix_off + (2 * (n_name + 1)) as u32;
    (suffix_off, uni_base_off, uni_suffix_off, total)
}

fn push_link_info(out: &mut Vec<u8>, full: &[char], name: &[char])
    requires
        full@.len() <= MAX_TARGET_CHARS,
        name@.len() <= full@.len(),
    ensures
        final(out)@ == old(out)@ + link_info(full@, name@),
{
    let (suffix_off, uni_base_off, uni_suffix_off, total) = offsets_exec(full, name);
    let full_s = string_of(full);
    let name_s = string_of(name);
    let uni_base = wide_z_exec(full);
    let uni_suffix = wide_z_exec(name);
    let ghost s0 = out@;
    push_link_info_fields(out, total, suffix_off, uni_base_off, uni_suffix_off);
    push_volume_id(out);
    push_ansi_z(out, full_s.as_str());
    push_ansi_z(out, name_s.as_str());
    push_units_le(out, uni_base.as_slice());
    push_units_le(out, uni_suffix.as_slice());
    proof {
        let f = link_info_fields(
            total as int,
            suffix_off as int,
            uni_base_off as int,
            uni_suffix_off as int,
        );
        assert(link_info(full@, name@) == f + volume_id() + ansi_z(full@) + ansi_z(name@)
            + wide_z(full@) + wide_z(name@));
        assert(out@ =~= s0 + link_info(full@, name@));
    }
}

fn push_string_data(out: &mut Vec<u8>, text: &[char])
    ensures
        final(out)@ == old(out)@ + string_data(text@),
{
    let u = encode_utf16(text);
    let count: usize = if u.len() <= 0xFFFF {
        u.len()
    } else {
        0xFFFF
    };
    push_le16(out, count as u16);
    let head = take_units(u.as_slice(), count);
    push_units_le(out, head.as_slice());
}

fn take_units(u: &[u16], n: usize) -> (r: Vec<u16>)
    requires
        n <= u@.len(),
    ensures
        r@ == u@.take(n as int),
{
    let mut r: Vec<u16> = Vec::new();
    let mut i: usize = 0;
    while i < n
        invariant
            n <= u@.len(),
            i <= n,
            r@ == u@.take(i as int),
        decreases n - i,
    {
        r.push(u[i]);
        i += 1;
        assert(r@ =~= u@.take(i as int));
    }
    r
}

fn icon_location_exec(icon: &[char]) -> (r: Vec<char>)
    ensures
        r@ == icon_location(icon@),
{
    let mut r = subvec(icon, 0, icon.len());
    if !contains_char(icon, ',') {
        r.push(',');
        r.push('0');
        assert(r@ =~= icon@ + ",0"@) by {
            reveal_strlit(",0");
        }
    }
    r
}

/// Build `.lnk` file bytes for `spec`.
pub fn build_lnk(spec: &ShortcutSpec) -> (r: Vec<u8>)
    requires
        spec.target@.len() <= MAX_TARGET_CHARS,
    ensures
        r@ == lnk_bytes(
            spec.target@,
            spec.args@,
            spec.working_dir@,
            opt_view(spec.icon),
            opt_view(spec.description),
        ),
{
    let target = windows_path_exec(spec.target.as_str());
    let file_name = file_name_exec(target.as_slice());
    proof {
        lemma_split_piece_len(target@, '\\');
        lemma_split_char_len(target@, '\\');
    }
    let wd_trim = trim_str(spec.working_dir.as_str());
    let working_dir = if wd_trim.len() == 0 {
        match folder_exec(target.as_slice()) {
            Some(f) => f,
            None => chars_of("C:\\"),
        }
    } else {
        windows_path_exec(spec.working_dir.as_str())
    };
    let description: Vec<char> = match &spec.description {
        Some(d) => chars_of(d.as_str()),
        None => Vec::new(),
    };
    let icon: Vec<char> = match &spec.icon {
        Some(i) => chars_of(i.as_str()),
        None => Vec::new(),
    };
    let args = chars_of(spec.args.as_str());
    let has_name = spec.description.is_some() && description.len() > 0;
    let has_wd = working_dir.len() > 0;
    let has_args = args.len() > 0;
    let has_icon = spec.icon.is_some() && icon.len() > 0;

    let mut flags: u32 = HAS_LINK_INFO + IS_UNICODE;
    if has_name {
        flags = flags + HAS_NAME;
    }
    if has_wd {
        flags = flags + HAS_WORKING_DIR;
    }
    if has_args {
        flags = flags + HAS_ARGUMENTS;
    }
    if has_icon {
        flags = flags + HAS_ICON_LOCATION;
    }

    let mut out: Vec<u8> = Vec::new();
    push_header(&mut out, flags);
    push_link_info(&mut out, target.as_slice(), file_name.as_slice());
    let ghost after_info = out@;
    if has_name {
        push_string_data(&mut out, description.as_slice());
    }
    let ghost after_name = out@;
    if has_wd {
        push_string_data(&mut out, working_dir.as_slice());
    }
    let ghost after_wd = out@;
    if has_args {
        push_string_data(&mut out, args.as_slice());
    }
    let ghost after_args = out@;
    if has_icon {
        let value = icon_location_exec(icon.as_slice());
        push_string_data(&mut out, value.as_slice());
    }
    let ghost after_icon = out@;
    push_le32(&mut out, 0);
    proof {
        let d = opt_view(spec.description);
        let ic = opt_view(spec.icon);
        assert(after_name == after_info + optional_string(present(d), d.unwrap_or(Seq::empty())));
        assert(after_icon == after_args + optional_string(
            present(ic),
            icon_location(ic.unwrap_or(Seq::empty())),
        ));
        assert(out@ =~= lnk_bytes(
            spec.target@,
            spec.args@,
            spec.working_dir@,
            opt_view(spec.icon),
            opt_view(spec.description),
        ));
    }
    out
}

} // verus!
