//! Following the Roblox client log as it grows.
//!
//! Each tick the caller reports the file's length; the tail says where to
//! read (at most 1 MiB per tick against bursts), and the caller hands back
//! the bytes it read. The tail turns them into complete lines: carriage
//! returns at a line's end are dropped, over-long lines are cut to 64 KiB,
//! and a partial last line waits for the rest (or is dropped once it alone
//! exceeds 64 KiB). A file that shrank (truncated or rotated) is read
//! again from the start.

use vstd::prelude::*;

use crate::text::{split_char, split_char_exec, string_of, trim_end_set, trim_end_set_vec};

verus! {

/// Most bytes read in one tick.
pub const TAIL_MAX_READ: u64 = 1048576;

/// Longest line kept, in bytes.
pub const TAIL_MAX_LINE: usize = 65536;

/// Bytes one character takes in UTF-8.
pub open spec fn char_width(c: char) -> nat {
    let v = c as u32;
    if v < 0x80 {
        1
    } else if v < 0x800 {
        2
    } else if v < 0x10000 {
        3
    } else {
        4
    }
}

/// Length in bytes of the UTF-8 encoding of `s`.
pub open spec fn utf8_len(s: Seq<char>) -> nat
    decreases s.len(),
{
    if s.len() == 0 {
        0
    } else {
        utf8_len(s.drop_last()) + char_width(s.last())
    }
}

/// The number of leading characters kept when cutting `l` to `max` bytes:
/// the longest prefix, from `k` on, that fits.
pub open spec fn cut_from(l: Seq<char>, max: nat, k: int) -> int
    decreases l.len() - k,
{
    if 0 <= k < l.len() && utf8_len(l.take(k + 1)) <= max {
        cut_from(l, max, k + 1)
    } else {
        k
    }
}

/// `l` cut to at most `max` bytes at a character boundary.
pub open spec fn cut_to(l: Seq<char>, max: nat) -> Seq<char> {
    l.take(cut_from(l, max, 0))
}

/// Cutting `l` at byte `max` falls on a character boundary (or `l` is short
/// enough), as `String::truncate` demands.
pub open spec fn cuttable(l: Seq<char>, max: nat) -> bool {
    utf8_len(l) <= max || utf8_len(cut_to(l, max)) == max
}

/// A complete line as recorded: trailing carriage returns dropped, cut to
/// 64 KiB.
pub open spec fn clean_line(l: Seq<char>) -> Seq<char> {
    cut_to(trim_end_set(l, seq!['\r']), TAIL_MAX_LINE as nat)
}

/// The complete lines of `text` (those ended by a newline), cleaned.
pub open spec fn complete_lines(text: Seq<char>) -> Seq<Seq<char>> {
    split_char(text, '\n').drop_last().map_values(|l: Seq<char>| clean_line(l))
}

/// What stays pending after `text`: the part after its last newline, or
/// nothing once that part alone exceeds 64 KiB.
pub open spec fn pending_part(text: Seq<char>) -> Seq<char> {
    let rest = split_char(text, '\n').last();
    if utf8_len(rest) > TAIL_MAX_LINE { Seq::empty() } else { rest }
}

/// Every complete line of `text` can be cut where it must be.
pub open spec fn lines_cuttable(text: Seq<char>) -> bool {
    forall|i: int|
        0 <= i < split_char(text, '\n').len() - 1 ==> cuttable(
            trim_end_set(#[trigger] split_char(text, '\n')[i], seq!['\r']),
            TAIL_MAX_LINE as nat,
        )
}

/// `String::from_utf8_lossy`: the text of `bytes`, each invalid sequence
/// replaced by U+FFFD.
pub uninterp spec fn utf8_lossy(bytes: Seq<u8>) -> Seq<char>;

/// `String::from_utf8_lossy`, owned. The contract names the text, a
/// function of the bytes alone.
#[verifier::external_body]
fn lossy_text(bytes: &[u8]) -> (r: String)
    ensures
        r@ == utf8_lossy(bytes@),
{
    String::from_utf8_lossy(bytes).into_owned()
}

fn width_exec(c: char) -> (r: usize)
    ensures
        r == char_width(c),
{
    let v = c as u32;
    if v < 0x80 {
        1
    } else if v < 0x800 {
        2
    } else if v < 0x10000 {
        3
    } else {
        4
    }
}

/// Cut `l` to at most `max` bytes at a character boundary; tell whether
/// the cut fell exactly at byte `max` (or nothing was cut), and whether
/// the whole of `l` fits.
pub(crate) fn cut_chars(l: &[char], max: usize) -> (r: (Vec<char>, bool, bool))
    ensures
        r.0@ == cut_to(l@, max as nat),
        r.1 == cuttable(l@, max as nat),
        r.2 == (utf8_len(l@) <= max),
{
    let n = l.len();
    let mut k: usize = 0;
    let mut bytes: usize = 0;
    loop
        invariant
            n == l@.len(),
            k <= n,
            bytes == utf8_len(l@.take(k as int)),
            bytes <= max,
            cut_from(l@, max as nat, 0) == cut_from(l@, max as nat, k as int),
        ensures
            k <= n,
            bytes == utf8_len(l@.take(k as int)),
            bytes <= max,
            cut_from(l@, max as nat, 0) == k,
            k < n ==> utf8_len(l@.take(k + 1)) > max,
        decreases n - k,
    {
        if k >= n {
            break;
        }
        let w = width_exec(l[k]);
        proof {
            assert(l@.take(k + 1).drop_last() =~= l@.take(k as int));
        }
        if w > max - bytes {
            break;
        }
        bytes = bytes + w;
        k += 1;
    }
    let cut: Vec<char> = crate::text::subvec(l, 0, k);
    assert(cut@ =~= l@.take(k as int));
    let whole = k == n;
    let fits = whole || bytes == max;
    proof {
        if k == n {
            assert(l@.take(k as int) =~= l@);
        } else {
            lemma_prefix_bound(l@, k + 1);
        }
    }
    (cut, fits, whole)
}

/// Position in the log file and the partial line awaiting its end.
#[derive(Debug, Clone)]
pub struct LogTail {
    pub offset: u64,
    pub remainder: String,
}

impl LogTail {
    /// A tail at the start of a file.
    pub fn new() -> (r: LogTail)
        ensures
            r.offset == 0,
            r.remainder@ == Seq::<char>::empty(),
    {
        LogTail { offset: 0, remainder: String::new() }
    }

    /// Where to read given the file's current length: `None` when nothing
    /// was appended, else the position and the number of bytes (at most
    /// 1 MiB). A file shorter than the position is read again from the
    /// start.
    pub fn plan_read(&mut self, file_len: u64) -> (r: Option<(u64, u64)>)
        ensures
            ({
                let reset = file_len < old(self).offset;
                &&& final(self).offset == if reset { 0 } else { old(self).offset }
                &&& final(self).remainder@ == if reset {
                    Seq::<char>::empty()
                } else {
                    old(self).remainder@
                }
                &&& if file_len == final(self).offset {
                    r is None
                } else {
                    r == Some(
                        (
                            final(self).offset,
                            if file_len - final(self).offset > TAIL_MAX_READ {
                                TAIL_MAX_READ
                            } else {
                                (file_len - final(self).offset) as u64
                            },
                        ),
                    )
                }
            }),
    {
        if file_len < self.offset {
            self.offset = 0;
            self.remainder = String::new();
        }
        if file_len == self.offset {
            return None;
        }
        let available = file_len - self.offset;
        Some((self.offset, if available > TAIL_MAX_READ { TAIL_MAX_READ } else { available }))
    }

    /// The text that taking `bytes` would split into lines.
    pub open spec fn combined(&self, bytes: Seq<u8>) -> Seq<char> {
        self.remainder@ + utf8_lossy(bytes)
    }

    /// Whether taking `bytes` cuts every over-long line on a character
    /// boundary (cutting elsewhere is refused).
    pub fn can_take(&self, bytes: &[u8]) -> (r: bool)
        ensures
            r == lines_cuttable(self.combined(bytes@)),
    {
        let mut text = crate::text::str_to_string(self.remainder.as_str());
        crate::text::push_str(&mut text, lossy_text(bytes).as_str());
        let chars = crate::text::chars_of(text.as_str());
        let pieces = split_char_exec(chars.as_slice(), '\n');
        let ghost ps = split_char(self.combined(bytes@), '\n');
        proof {
            crate::text::lemma_split_char_len(self.combined(bytes@), '\n');
        }
        let cr: Vec<char> = vec!['\r'];
        assert(cr@ =~= seq!['\r']);
        let n = pieces.len();
        let mut i: usize = 0;
        while i < n - 1
            invariant
                n == pieces@.len(),
                pieces@.len() == ps.len(),
                ps.len() >= 1,
                ps == split_char(self.combined(bytes@), '\n'),
                forall|k: int| 0 <= k < pieces@.len() ==> #[trigger] pieces@[k]@ == ps[k],
                cr@ == seq!['\r'],
                i < n,
                forall|k: int|
                    0 <= k < i ==> cuttable(trim_end_set(#[trigger] ps[k], seq!['\r']), TAIL_MAX_LINE as nat),
            decreases n - 1 - i,
        {
            let line = trim_end_set_vec(pieces[i].as_slice(), cr.as_slice());
            let (_, ok, _) = cut_chars(line.as_slice(), TAIL_MAX_LINE);
            if !ok {
                assert(!cuttable(trim_end_set(ps[i as int], seq!['\r']), TAIL_MAX_LINE as nat));
                return false;
            }
            i += 1;
        }
        true
    }

    /// Take the bytes read at the planned position: the position advances
    /// past them and the complete lines come back.
    pub fn take(&mut self, bytes: &[u8]) -> (r: Vec<String>)
        requires
            old(self).offset + bytes@.len() <= u64::MAX,
            lines_cuttable(old(self).combined(bytes@)),
        ensures
            final(self).offset == old(self).offset + bytes@.len(),
            r@.map_values(|s: String| s@) == complete_lines(old(self).combined(bytes@)),
            final(self).remainder@ == pending_part(old(self).combined(bytes@)),
    {
        let ghost text = self.combined(bytes@);
        let mut joined = crate::text::str_to_string(self.remainder.as_str());
        crate::text::push_str(&mut joined, lossy_text(bytes).as_str());
        let chars = crate::text::chars_of(joined.as_str());
        let pieces = split_char_exec(chars.as_slice(), '\n');
        let ghost ps = split_char(text, '\n');
        proof {
            crate::text::lemma_split_char_len(text, '\n');
        }
        let cr: Vec<char> = vec!['\r'];
        assert(cr@ =~= seq!['\r']);
        let mut lines: Vec<String> = Vec::new();
        let n = pieces.len();
        let mut i: usize = 0;
        while i < n - 1
            invariant
                n == pieces@.len(),
                pieces@.len() == ps.len(),
                ps.len() >= 1,
                ps == split_char(text, '\n'),
                forall|k: int| 0 <= k < pieces@.len() ==> #[trigger] pieces@[k]@ == ps[k],
                cr@ == seq!['\r'],
                i < n,
                lines@.map_values(|s: String| s@) == ps.drop_last().take(i as int).map_values(
                    |l: Seq<char>| clean_line(l),
                ),
            decreases n - 1 - i,
        {
            let line = trim_end_set_vec(pieces[i].as_slice(), cr.as_slice());
            let (cut, _, _) = cut_chars(line.as_slice(), TAIL_MAX_LINE);
            let ghost before = lines@;
            lines.push(string_of(cut.as_slice()));
            proof {
                assert(ps.drop_last().take(i + 1) =~= ps.drop_last().take(i as int).push(ps[i as int]));
                assert(lines@.map_values(|s: String| s@) =~= before.map_values(|s: String| s@).push(
                    clean_line(ps[i as int]),
                ));
            }
            i += 1;
        }
        assert(ps.drop_last().take(ps.len() - 1) =~= ps.drop_last());
        let rest = &pieces[n - 1];
        assert(rest@ == ps.last());
        self.remainder = if fits_whole(rest.as_slice()) {
            string_of(rest.as_slice())
        } else {
            String::new()
        };
        self.offset = self.offset + bytes.len() as u64;
        lines
    }
}

/// Whether all of `l` fits in `TAIL_MAX_LINE` bytes.
fn fits_whole(l: &[char]) -> (r: bool)
    ensures
        r == (utf8_len(l@) <= TAIL_MAX_LINE),
{
    let mut bytes: usize = 0;
    let mut k: usize = 0;
    while k < l.len()
        invariant
            k <= l@.len(),
            bytes == utf8_len(l@.take(k as int)),
            bytes <= TAIL_MAX_LINE,
        decreases l.len() - k,
    {
        let w = width_exec(l[k]);
        proof {
            assert(l@.take(k + 1).drop_last() =~= l@.take(k as int));
        }
        if bytes + w > TAIL_MAX_LINE {
            proof {
                lemma_prefix_bound(l@, k as int + 1);
            }
            return false;
        }
        bytes = bytes + w;
        k += 1;
    }
    assert(l@.take(l@.len() as int) =~= l@);
    true
}

/// A prefix takes no more bytes than the whole.
proof fn lemma_prefix_bound(l: Seq<char>, k: int)
    requires
        0 <= k <= l.len(),
    ensures
        utf8_len(l.take(k)) <= utf8_len(l),
    decreases l.len() - k,
{
    if k < l.len() {
        lemma_prefix_bound(l, k + 1);
        assert(l.take(k + 1).drop_last() =~= l.take(k));
    } else {
        assert(l.take(k) =~= l);
    }
}

} // verus!
