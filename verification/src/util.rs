//! Small helpers shared across the crate: digests, human-readable sizes and
//! durations, file-name sanitising, and UTF-16 strings for Win32 APIs.

use md5::Digest;

use vstd::prelude::*;

use crate::encoding::{lemma_utf16_len, utf16, encode_utf16};
use crate::text::{
    chars_of, dec, dec2, digit_char, digit_char_exec, eq_ignore_case, eq_ignore_case_exec,
    lemma_skip_ws_bounds, lemma_back_in_set_bounds, push_char, push_chars, push_dec, push_str, string_of, subvec,
    trim_end_set, trim_end_set_vec, trim_start, trim_start_vec,
};

verus! {

// ---------------------------------------------------------------------------
// Hashing
// ---------------------------------------------------------------------------

/// The MD5 digest of a byte string.
pub uninterp spec fn md5_of(data: Seq<u8>) -> Seq<u8>;

/// `md5::Md5::digest` from the md-5 crate: the 16-byte MD5 digest of `data`,
/// as a vector. The contract names the digest and states its length.
#[verifier::external_body]
fn md5_digest(data: &[u8]) -> (r: Vec<u8>)
    ensures
        r@ == md5_of(data@),
        r@.len() == 16,
{
    md5::Md5::digest(data).to_vec()
}

/// Lowercase hexadecimal digit of a value below sixteen.
pub open spec fn hex_digit(d: int) -> char {
    if d < 10 {
        (('0' as int) + d) as char
    } else {
        (('a' as int) + d - 10) as char
    }
}

/// Two lowercase hex digits per byte, high nibble first.
pub open spec fn hex_lower(b: Seq<u8>) -> Seq<char>
    decreases b.len(),
{
    if b.len() == 0 {
        Seq::empty()
    } else {
        hex_lower(b.drop_last()) + seq![hex_digit(b.last() as int / 16), hex_digit(b.last() as int % 16)]
    }
}

fn hex_digit_exec(d: u8) -> (r: char)
    requires
        d < 16,
    ensures
        r == hex_digit(d as int),
{
    if d < 10 {
        (48 + d) as char
    } else {
        (87 + d) as char
    }
}

/// Lowercase hex rendering of bytes (`{:x}` on a digest).
pub fn hex_string(bytes: &[u8]) -> (r: String)
    ensures
        r@ == hex_lower(bytes@),
{
    let mut r = String::new();
    let mut i: usize = 0;
    while i < bytes.len()
        invariant
            i <= bytes@.len(),
            r@ == hex_lower(bytes@.take(i as int)),
        decreases bytes.len() - i,
    {
        let b = bytes[i];
        push_char(&mut r, hex_digit_exec(b / 16));
        push_char(&mut r, hex_digit_exec(b % 16));
        assert(bytes@.take(i + 1).drop_last() =~= bytes@.take(i as int));
        i += 1;
        assert(r@ =~= hex_lower(bytes@.take(i as int)));
    }
    assert(bytes@.take(bytes@.len() as int) =~= bytes@);
    r
}

/// Lowercase hex MD5 of an in-memory buffer (matches Roblox manifest hashes).
pub fn md5_hex_bytes(data: &[u8]) -> (r: String)
    ensures
        r@ == hex_lower(md5_of(data@)),
        r@.len() == 32,
{
    let digest = md5_digest(data);
    proof {
        lemma_hex_len(digest@);
    }
    hex_string(digest.as_slice())
}

pub proof fn lemma_hex_len(b: Seq<u8>)
    ensures
        hex_lower(b).len() == 2 * b.len(),
    decreases b.len(),
{
    if b.len() > 0 {
        lemma_hex_len(b.drop_last());
    }
}

// ---------------------------------------------------------------------------
// Durations
// ---------------------------------------------------------------------------

/// `5025` -> `1h 23m`, `65` -> `1m 05s`, `45` -> `45s`.
pub open spec fn duration_text(t: nat) -> Seq<char> {
    let hours = t / 3600;
    let minutes = (t % 3600) / 60;
    let secs = t % 60;
    if hours > 0 {
        dec(hours) + seq!['h', ' '] + dec2(minutes) + seq!['m']
    } else if minutes > 0 {
        dec(minutes) + seq!['m', ' '] + dec2(secs) + seq!['s']
    } else {
        dec(secs) + seq!['s']
    }
}

fn push_dec2(s: &mut String, n: u64)
    ensures
        final(s)@ == old(s)@ + dec2(n as nat),
{
    if n < 10 {
        push_char(s, '0');
        push_char(s, digit_char_exec(n));
        assert(final(s)@ =~= old(s)@ + dec2(n as nat));
    } else {
        push_dec(s, n);
    }
}

/// `5025` -> `"1h 23m"`. Used for playtime and uptime displays.
pub fn format_duration_secs(total_secs: u64) -> (r: String)
    ensures
        r@ == duration_text(total_secs as nat),
{
    let hours = total_secs / 3600;
    let minutes = (total_secs % 3600) / 60;
    let secs = total_secs % 60;
    let mut r = String::new();
    if hours > 0 {
        push_dec(&mut r, hours);
        push_char(&mut r, 'h');
        push_char(&mut r, ' ');
        push_dec2(&mut r, minutes);
        push_char(&mut r, 'm');
    } else if minutes > 0 {
        push_dec(&mut r, minutes);
        push_char(&mut r, 'm');
        push_char(&mut r, ' ');
        push_dec2(&mut r, secs);
        push_char(&mut r, 's');
    } else {
        push_dec(&mut r, secs);
        push_char(&mut r, 's');
    }
    assert(r@ =~= duration_text(total_secs as nat));
    r
}

// ---------------------------------------------------------------------------
// Sizes
// ---------------------------------------------------------------------------

/// `2^53`: integers below it convert to `f64` exactly.
pub const F64_EXACT_LIMIT: u64 = 0x20_0000_0000_0000;

/// The power of two by which an integer's `f64` significand is scaled: the
/// smallest power of two at or above `p` that brings `b` below `2^53`.
pub open spec fn f64_scale_from(b: nat, p: nat) -> nat
    decreases b - p,
{
    if p == 0 || 2 * p > b || b / p < F64_EXACT_LIMIT {
        p
    } else {
        f64_scale_from(b, 2 * p)
    }
}

/// The value of `b as f64`: `b` rounded to 53 significant bits, to the
/// nearest representable value, ties to an even significand.
pub open spec fn f64_value(b: nat) -> nat {
    let p = f64_scale_from(b, 1);
    let q = b / p;
    let r = b % p;
    if 2 * r > p || (2 * r == p && q % 2 == 1) {
        (q + 1) * p
    } else {
        q * p
    }
}

/// `1024^k`.
pub open spec fn kib_pow(k: nat) -> nat
    decreases k,
{
    if k == 0 {
        1
    } else {
        1024 * kib_pow((k - 1) as nat)
    }
}

/// How many times, at most four, `v` can be divided by 1024 while it stays
/// at or above 1024.
pub open spec fn size_unit_from(v: nat, k: nat) -> nat
    decreases 4 - k,
{
    if k < 4 && v >= kib_pow(k + 1) {
        size_unit_from(v, k + 1)
    } else {
        k
    }
}

/// `10 * v / d` rounded to the nearest integer, ties to even: the tenths
/// that `{:.1}` prints for the exact value `v / d`.
pub open spec fn tenths(v: nat, d: nat) -> nat {
    let q = (10 * v) / d;
    let r = (10 * v) % d;
    if 2 * r > d || (2 * r == d && q % 2 == 1) {
        q + 1
    } else {
        q
    }
}

pub open spec fn size_unit_name(k: nat) -> Seq<char> {
    if k == 0 {
        seq!['B']
    } else if k == 1 {
        seq!['K', 'B']
    } else if k == 2 {
        seq!['M', 'B']
    } else if k == 3 {
        seq!['G', 'B']
    } else {
        seq!['T', 'B']
    }
}

/// What `format_bytes` prints: whole bytes below 1 KiB, else the size in
/// the largest unit up to TB with one decimal.
pub open spec fn size_text(bytes: nat) -> Seq<char> {
    let v = f64_value(bytes);
    let k = size_unit_from(v, 0);
    if k == 0 {
        dec(bytes) + seq![' '] + size_unit_name(0)
    } else {
        let t = tenths(v, kib_pow(k));
        dec(t / 10) + seq!['.', digit_char(t % 10), ' '] + size_unit_name(k)
    }
}

proof fn lemma_div_bounds(b: nat, p: nat, k: nat)
    by (nonlinear_arith)
    requires
        p > 0,
        b / p >= k,
    ensures
        p * k <= b,
{
}

fn f64_value_exec(b: u64) -> (v: u128)
    ensures
        v == f64_value(b as nat),
        v <= 0x1_0000_0000_0000_1000,
{
    let mut p: u64 = 1;
    while b / p >= F64_EXACT_LIMIT
        invariant
            1 <= p < 0x1000,
            f64_scale_from(b as nat, p as nat) == f64_scale_from(b as nat, 1),
        decreases b - p,
    {
        proof {
            lemma_div_bounds(b as nat, p as nat, F64_EXACT_LIMIT as nat);
            lemma_div_bounds(b as nat, 2 * p as nat, 0);
        }
        p = p * 2;
    }
    assert(f64_scale_from(b as nat, p as nat) == p as nat);
    let q: u64 = b / p;
    let r: u64 = b % p;
    proof {
        assert(q * p + r == b) by (nonlinear_arith)
            requires
                q == b / p,
                r == b % p,
                p > 0,
        ;
        assert((q as int + 1) * p <= 0x1_0000_0000_0000_1000) by (nonlinear_arith)
            requires
                q * p + r == b,
                p < 0x1000,
                b < 0x1_0000_0000_0000_0000,
                r >= 0,
        ;
    }
    if 2 * r > p || (2 * r == p && q % 2 == 1) {
        (q as u128 + 1) * (p as u128)
    } else {
        (q as u128) * (p as u128)
    }
}

proof fn lemma_kib_pow_values()
    ensures
        kib_pow(0) == 1,
        kib_pow(1) == 1024,
        kib_pow(2) == 1048576,
        kib_pow(3) == 1073741824,
        kib_pow(4) == 1099511627776,
{
    reveal_with_fuel(kib_pow, 5);
}

proof fn lemma_tenths_bound(v: nat, d: nat, t: nat)
    by (nonlinear_arith)
    requires
        v <= 0x1_0000_0000_0000_1000,
        d >= 1024,
        t <= (10 * v) / d + 1,
    ensures
        t / 10 < 0x1_0000_0000_0000_0000,
{
}

/// `1536` -> `"1.5 KB"`. Used for download / install sizes.
pub fn format_bytes(bytes: u64) -> (r: String)
    ensures
        r@ == size_text(bytes as nat),
{
    let v = f64_value_exec(bytes);
    proof {
        lemma_kib_pow_values();
    }
    let mut unit: u64 = 0;
    let mut d: u128 = 1;
    while unit < 4 && v >= d * 1024
        invariant
            unit <= 4,
            d == kib_pow(unit as nat),
            d <= 1099511627776,
            size_unit_from(v as nat, unit as nat) == size_unit_from(v as nat, 0),
            kib_pow(0) == 1,
            kib_pow(1) == 1024,
            kib_pow(2) == 1048576,
            kib_pow(3) == 1073741824,
            kib_pow(4) == 1099511627776,
        decreases 4 - unit,
    {
        d = d * 1024;
        unit += 1;
    }
    assert(size_unit_from(v as nat, unit as nat) == unit);
    let mut r = String::new();
    if unit == 0 {
        push_dec(&mut r, bytes);
        push_char(&mut r, ' ');
        push_char(&mut r, 'B');
    } else {
        let n: u128 = 10 * v;
        let q: u128 = n / d;
        let rem: u128 = n % d;
        let t: u128 = if 2 * rem > d || (2 * rem == d && q % 2 == 1) {
            q + 1
        } else {
            q
        };
        proof {
            lemma_tenths_bound(v as nat, d as nat, t as nat);
        }
        push_dec(&mut r, (t / 10) as u64);
        push_char(&mut r, '.');
        push_char(&mut r, digit_char_exec((t % 10) as u64));
        push_char(&mut r, ' ');
        if unit == 1 {
            push_char(&mut r, 'K');
        } else if unit == 2 {
            push_char(&mut r, 'M');
        } else if unit == 3 {
            push_char(&mut r, 'G');
        } else {
            push_char(&mut r, 'T');
        }
        push_char(&mut r, 'B');
    }
    assert(r@ =~= size_text(bytes as nat));
    r
}

// ---------------------------------------------------------------------------
// File names
// ---------------------------------------------------------------------------

/// Longest sanitised file name, in characters.
pub const MAX_FILE_NAME_CHARS: usize = 80;

/// `char::is_control`: the C0 and C1 control characters.
pub open spec fn is_control(c: char) -> bool {
    ('\u{0}' <= c && c <= '\u{1f}') || ('\u{7f}' <= c && c <= '\u{9f}')
}

/// Characters Windows forbids in file names.
pub open spec fn is_reserved_char(c: char) -> bool {
    c == '<' || c == '>' || c == ':' || c == '"' || c == '/' || c == '\\' || c == '|' || c == '?'
        || c == '*'
}

pub open spec fn file_name_char(c: char) -> char {
    if is_reserved_char(c) || is_control(c) {
        '_'
    } else {
        c
    }
}

/// Trailing characters dropped from file names.
pub open spec fn dot_space() -> Seq<char> {
    seq!['.', ' ']
}

/// Device names Windows reserves, whatever their case.
pub open spec fn reserved_names() -> Seq<Seq<char>> {
    seq![
        seq!['C', 'O', 'N'], seq!['P', 'R', 'N'], seq!['A', 'U', 'X'], seq!['N', 'U', 'L'],
        seq!['C', 'O', 'M', '1'], seq!['C', 'O', 'M', '2'], seq!['C', 'O', 'M', '3'],
        seq!['C', 'O', 'M', '4'], seq!['C', 'O', 'M', '5'], seq!['C', 'O', 'M', '6'],
        seq!['C', 'O', 'M', '7'], seq!['C', 'O', 'M', '8'], seq!['C', 'O', 'M', '9'],
        seq!['L', 'P', 'T', '1'], seq!['L', 'P', 'T', '2'], seq!['L', 'P', 'T', '3'],
        seq!['L', 'P', 'T', '4'], seq!['L', 'P', 'T', '5'], seq!['L', 'P', 'T', '6'],
        seq!['L', 'P', 'T', '7'], seq!['L', 'P', 'T', '8'], seq!['L', 'P', 'T', '9'],
    ]
}

pub open spec fn is_reserved_name(s: Seq<char>) -> bool {
    exists|k: int| 0 <= k < reserved_names().len() && eq_ignore_case(s, #[trigger] reserved_names()[k])
}

/// What `sanitize_filename` returns: forbidden and control characters
/// become `_`, trailing dots and spaces and leading whitespace go, the name
/// is cut to 80 characters (and trailing dots and spaces dropped again),
/// an empty result becomes `unnamed`, and reserved device names get a `_`
/// appended.
pub open spec fn sanitized(input: Seq<char>) -> Seq<char> {
    let mapped = input.map_values(|c: char| file_name_char(c));
    let trimmed = trim_start(trim_end_set(mapped, dot_space()));
    let capped = if trimmed.len() > MAX_FILE_NAME_CHARS {
        trim_end_set(trimmed.take(MAX_FILE_NAME_CHARS as int), dot_space())
    } else {
        trimmed
    };
    let named = if capped.len() == 0 {
        seq!['u', 'n', 'n', 'a', 'm', 'e', 'd']
    } else {
        capped
    };
    if is_reserved_name(named) {
        named.push('_')
    } else {
        named
    }
}

fn file_name_char_exec(c: char) -> (r: char)
    ensures
        r == file_name_char(c),
{
    if c == '<' || c == '>' || c == ':' || c == '"' || c == '/' || c == '\\' || c == '|' || c
        == '?' || c == '*' || ('\u{0}' <= c && c <= '\u{1f}') || ('\u{7f}' <= c && c <= '\u{9f}') {
        '_'
    } else {
        c
    }
}

fn reserved_names_exec() -> (r: Vec<Vec<char>>)
    ensures
        r@.len() == reserved_names().len(),
        forall|k: int| 0 <= k < r@.len() ==> (#[trigger] r@[k])@ == reserved_names()[k],
{
    let r: Vec<Vec<char>> = vec![
        vec!['C', 'O', 'N'], vec!['P', 'R', 'N'], vec!['A', 'U', 'X'], vec!['N', 'U', 'L'],
        vec!['C', 'O', 'M', '1'], vec!['C', 'O', 'M', '2'], vec!['C', 'O', 'M', '3'],
        vec!['C', 'O', 'M', '4'], vec!['C', 'O', 'M', '5'], vec!['C', 'O', 'M', '6'],
        vec!['C', 'O', 'M', '7'], vec!['C', 'O', 'M', '8'], vec!['C', 'O', 'M', '9'],
        vec!['L', 'P', 'T', '1'], vec!['L', 'P', 'T', '2'], vec!['L', 'P', 'T', '3'],
        vec!['L', 'P', 'T', '4'], vec!['L', 'P', 'T', '5'], vec!['L', 'P', 'T', '6'],
        vec!['L', 'P', 'T', '7'], vec!['L', 'P', 'T', '8'], vec!['L', 'P', 'T', '9'],
    ];
    assert forall|k: int| 0 <= k < r@.len() implies (#[trigger] r@[k])@ == reserved_names()[k] by {
        assert(r@[k]@ =~= reserved_names()[k]);
    }
    r
}

fn is_reserved_name_exec(s: &[char]) -> (r: bool)
    ensures
        r == is_reserved_name(s@),
{
    let names = reserved_names_exec();
    let mut i: usize = 0;
    while i < names.len()
        invariant
            i <= names@.len(),
            names@.len() == reserved_names().len(),
            forall|k: int| 0 <= k < names@.len() ==> (#[trigger] names@[k])@ == reserved_names()[k],
            forall|k: int| 0 <= k < i ==> !eq_ignore_case(s@, #[trigger] reserved_names()[k]),
        decreases names.len() - i,
    {
        if eq_ignore_case_exec(s, names[i].as_slice()) {
            assert(eq_ignore_case(s@, reserved_names()[i as int]));
            return true;
        }
        i += 1;
    }
    false
}

/// Make arbitrary text safe for use as a file name: strips characters that
/// are illegal on Windows, trims trailing dots/spaces, caps length, and
/// guarantees a non-empty result.
pub fn sanitize_filename(input: &str) -> (r: String)
    ensures
        r@ == sanitized(input@),
        0 < r@.len() <= MAX_FILE_NAME_CHARS + 1,
{
    let chars = chars_of(input);
    let mut mapped: Vec<char> = Vec::new();
    let mut i: usize = 0;
    while i < chars.len()
        invariant
            i <= chars@.len(),
            chars@ == input@,
            mapped@ == input@.map_values(|c: char| file_name_char(c)).take(i as int),
        decreases chars.len() - i,
    {
        mapped.push(file_name_char_exec(chars[i]));
        i += 1;
        assert(mapped@ =~= input@.map_values(|c: char| file_name_char(c)).take(i as int));
    }
    assert(mapped@ =~= input@.map_values(|c: char| file_name_char(c)));
    let set: [char; 2] = ['.', ' '];
    assert(set@ =~= dot_space());
    let ended = trim_end_set_vec(mapped.as_slice(), &set);
    assert(ended@ == trim_end_set(input@.map_values(|c: char| file_name_char(c)), dot_space()));
    let trimmed = trim_start_vec(ended.as_slice());
    let capped = if trimmed.len() > MAX_FILE_NAME_CHARS {
        let head = subvec(trimmed.as_slice(), 0, MAX_FILE_NAME_CHARS);
        trim_end_set_vec(head.as_slice(), &set)
    } else {
        trimmed
    };
    proof {
        let m = input@.map_values(|c: char| file_name_char(c));
        lemma_back_in_set_bounds(m, dot_space(), m.len() as int);
        lemma_skip_ws_bounds(ended@, 0);
        if trimmed@.len() > MAX_FILE_NAME_CHARS {
            let h = trimmed@.take(MAX_FILE_NAME_CHARS as int);
            lemma_back_in_set_bounds(h, dot_space(), h.len() as int);
        }
        assert(capped@.len() <= MAX_FILE_NAME_CHARS);
    }
    let named = if capped.len() == 0 {
        chars_of("unnamed")
    } else {
        capped
    };
    proof {
        reveal_strlit("unnamed");
    }
    let ghost m = input@.map_values(|c: char| file_name_char(c));
    let ghost t = trim_start(trim_end_set(m, dot_space()));
    assert(trimmed@ == t);
    assert(capped@ == (if t.len() > MAX_FILE_NAME_CHARS {
        trim_end_set(t.take(MAX_FILE_NAME_CHARS as int), dot_space())
    } else {
        t
    }));
    assert(named@ == (if capped@.len() == 0 {
        seq!['u', 'n', 'n', 'a', 'm', 'e', 'd']
    } else {
        capped@
    }));
    let mut r = string_of(named.as_slice());
    if is_reserved_name_exec(named.as_slice()) {
        push_char(&mut r, '_');
    }
    r
}

// ---------------------------------------------------------------------------
// Windows string helpers
// ---------------------------------------------------------------------------

/// Encode a string as NUL-terminated UTF-16 for Win32 APIs.
pub fn to_wide(value: &str) -> (r: Vec<u16>)
    ensures
        r@ == utf16(value@).push(0u16),
{
    let chars = chars_of(value);
    let mut r = encode_utf16(chars.as_slice());
    r.push(0u16);
    r
}

} // verus!
