//! Single-instance slot names ("only one settings window at a time").
//!
//! Windows uses a named mutex; Unix uses an `flock`'d file in the temporary
//! directory. The caller takes the lock; this module turns a slot name into
//! the mutex name and the lock file.

use vstd::prelude::*;

use crate::consts::APP_ID;
use crate::paths::{join_path, joined};
use crate::text::{chars_of, push_char, push_str, str_to_string, string_of};

verus! {

/// Longest slot name kept.
pub const MAX_SLOT_CHARS: usize = 64;

pub open spec fn slot_char(c: char) -> bool {
    ('a' <= c && c <= 'z') || ('A' <= c && c <= 'Z') || ('0' <= c && c <= '9') || c == '-'
        || c == '_'
}

/// The characters of `s` that may appear in a slot name, in order.
pub open spec fn slot_chars(s: Seq<char>) -> Seq<char>
    decreases s.len(),
{
    if s.len() == 0 {
        Seq::empty()
    } else if slot_char(s.last()) {
        slot_chars(s.drop_last()).push(s.last())
    } else {
        slot_chars(s.drop_last())
    }
}

/// A slot name reduced to ASCII letters, digits, `-` and `_`: `app` when
/// nothing is left, cut to 64 characters.
pub open spec fn slot_name(s: Seq<char>) -> Seq<char> {
    let kept = slot_chars(s);
    if kept.len() == 0 {
        "app"@
    } else if kept.len() > MAX_SLOT_CHARS {
        kept.take(MAX_SLOT_CHARS as int)
    } else {
        kept
    }
}

/// Reduce `name` to a safe slot name.
pub fn sanitize_slot(name: &str) -> (r: String)
    ensures
        r@ == slot_name(name@),
{
    let chars = chars_of(name);
    let mut kept: Vec<char> = Vec::new();
    let mut i: usize = 0;
    while i < chars.len()
        invariant
            i <= chars@.len(),
            kept@ == slot_chars(chars@.take(i as int)),
        decreases chars.len() - i,
    {
        let c = chars[i];
        proof {
            assert(chars@.take(i + 1).drop_last() =~= chars@.take(i as int));
        }
        if ('a' <= c && c <= 'z') || ('A' <= c && c <= 'Z') || ('0' <= c && c <= '9') || c == '-'
            || c == '_' {
            kept.push(c);
        }
        i += 1;
    }
    assert(chars@.take(chars@.len() as int) =~= chars@);
    if kept.len() == 0 {
        return str_to_string("app");
    }
    if kept.len() > MAX_SLOT_CHARS {
        kept.truncate(MAX_SLOT_CHARS);
    }
    string_of(kept.as_slice())
}

/// The Unix lock file of a slot: `redstrap.<slot>.lock` in the temporary
/// directory.
pub fn lock_file_path(temp_dir: &str, name: &str) -> (r: String)
    ensures
        r@ == joined(temp_dir@, APP_ID@ + seq!['.'] + slot_name(name@) + ".lock"@),
{
    let mut file = str_to_string(APP_ID);
    push_char(&mut file, '.');
    let slot = sanitize_slot(name);
    push_str(&mut file, slot.as_str());
    push_str(&mut file, ".lock");
    join_path(temp_dir, file.as_str())
}

/// The Windows mutex name of a slot: `Local\RedStrap-<slot>`.
pub fn mutex_name(name: &str) -> (r: String)
    ensures
        r@ == "Local\\RedStrap-"@ + slot_name(name@),
{
    let mut s = str_to_string("Local\\RedStrap-");
    let slot = sanitize_slot(name);
    push_str(&mut s, slot.as_str());
    s
}

} // verus!
