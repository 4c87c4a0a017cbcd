//! Discord Rich Presence: the presence record, the limits Discord puts on
//! its fields, and the IPC framing (a little-endian opcode and length in
//! front of a JSON body). Opening the socket and exchanging frames happen
//! at the edge of the program.

use vstd::prelude::*;

use crate::encoding::{le32, push_bytes, push_le32};
use crate::error::RedStrapError;
use crate::text::{chars_of, string_of, subvec};

verus! {

/// Handshake opcode.
pub const OP_HANDSHAKE: u32 = 0;
/// Command frame opcode.
pub const OP_FRAME: u32 = 1;
/// Longest frame body accepted from Discord.
pub const MAX_FRAME_BODY: u32 = 1048576;
/// Longest text Discord shows in a presence field, in characters.
pub const MAX_FIELD_CHARS: usize = 128;
/// Longest button label, in characters.
pub const MAX_BUTTON_LABEL_CHARS: usize = 32;
/// Most buttons Discord shows.
pub const MAX_BUTTONS: usize = 2;

/// A presence update. `None` fields are omitted from the payload.
#[derive(Debug, Clone)]
pub struct Presence {
    pub details: Option<String>,
    pub state: Option<String>,
    /// Unix seconds (milliseconds are accepted and converted).
    pub start: Option<i64>,
    pub end: Option<i64>,
    pub large_image: Option<String>,
    pub large_text: Option<String>,
    pub small_image: Option<String>,
    pub small_text: Option<String>,
    /// `(label, url)` pairs; Discord shows at most two.
    pub buttons: Vec<(String, String)>,
}

impl Default for Presence {
    fn default() -> (r: Presence)
        ensures
            r.details is None && r.state is None && r.start is None && r.end is None,
            r.large_image is None && r.large_text is None,
            r.small_image is None && r.small_text is None,
            r.buttons@.len() == 0,
    {
        Presence {
            details: None,
            state: None,
            start: None,
            end: None,
            large_image: None,
            large_text: None,
            small_image: None,
            small_text: None,
            buttons: Vec::new(),
        }
    }
}

/// The first `max` characters of a text.
pub open spec fn truncated(s: Seq<char>, max: nat) -> Seq<char> {
    if s.len() <= max {
        s
    } else {
        s.take(max as int)
    }
}

/// Cut a text to at most `max_chars` characters.
pub fn truncate(value: &str, max_chars: usize) -> (r: String)
    ensures
        r@ == truncated(value@, max_chars as nat),
{
    let v = chars_of(value);
    if v.len() <= max_chars {
        string_of(v.as_slice())
    } else {
        let head = subvec(v.as_slice(), 0, max_chars);
        string_of(head.as_slice())
    }
}

/// Seconds for a time given in seconds or milliseconds since the epoch:
/// values past 10^12 are taken as milliseconds.
pub open spec fn normalized_time(value: i64) -> i64 {
    if value > 1_000_000_000_000 {
        (value / 1000) as i64
    } else {
        value
    }
}

/// Accept seconds or milliseconds since epoch; Discord wants seconds.
pub fn normalize_time(value: i64) -> (r: i64)
    ensures
        r == normalized_time(value),
{
    if value > 1_000_000_000_000 {
        value / 1000
    } else {
        value
    }
}

/// The activity values sent to Discord for a presence: text fields cut to
/// the length Discord shows, times in seconds, at most two buttons with
/// short labels. Serialising them as JSON happens at the edge.
#[derive(Debug, Clone)]
pub struct ActivityFields {
    pub details: Option<String>,
    pub state: Option<String>,
    pub start: Option<i64>,
    pub end: Option<i64>,
    pub large_image: Option<String>,
    pub large_text: Option<String>,
    pub small_image: Option<String>,
    pub small_text: Option<String>,
    pub buttons: Vec<(String, String)>,
}

pub open spec fn cut_opt(o: Option<String>, max: nat) -> Option<Seq<char>> {
    match o {
        Some(s) => Some(truncated(s@, max)),
        None => None,
    }
}

pub open spec fn view_opt(o: Option<String>) -> Option<Seq<char>> {
    match o {
        Some(s) => Some(s@),
        None => None,
    }
}

pub open spec fn time_opt(o: Option<i64>) -> Option<i64> {
    match o {
        Some(t) => Some(normalized_time(t)),
        None => None,
    }
}

fn cut_opt_exec(o: &Option<String>, max: usize) -> (r: Option<String>)
    ensures
        view_opt(r) == cut_opt(*o, max as nat),
{
    match o {
        Some(s) => Some(truncate(s.as_str(), max)),
        None => None,
    }
}

fn time_opt_exec(o: Option<i64>) -> (r: Option<i64>)
    ensures
        r == time_opt(o),
{
    match o {
        Some(t) => Some(normalize_time(t)),
        None => None,
    }
}

/// Prepare a presence for sending.
pub fn activity_fields(p: &Presence) -> (r: ActivityFields)
    ensures
        view_opt(r.details) == cut_opt(p.details, MAX_FIELD_CHARS as nat),
        view_opt(r.state) == cut_opt(p.state, MAX_FIELD_CHARS as nat),
        r.start == time_opt(p.start),
        r.end == time_opt(p.end),
        view_opt(r.large_image) == cut_opt(p.large_image, MAX_FIELD_CHARS as nat),
        view_opt(r.large_text) == cut_opt(p.large_text, MAX_FIELD_CHARS as nat),
        view_opt(r.small_image) == cut_opt(p.small_image, MAX_FIELD_CHARS as nat),
        view_opt(r.small_text) == cut_opt(p.small_text, MAX_FIELD_CHARS as nat),
        r.buttons@.len() == if p.buttons@.len() < MAX_BUTTONS {
            p.buttons@.len()
        } else {
            MAX_BUTTONS as nat
        },
        forall|k: int|
            0 <= k < r.buttons@.len() ==> (#[trigger] r.buttons@[k]).0@ == truncated(
                p.buttons@[k].0@,
                MAX_BUTTON_LABEL_CHARS as nat,
            ) && r.buttons@[k].1@ == p.buttons@[k].1@,
{
    let mut buttons: Vec<(String, String)> = Vec::new();
    let n = if p.buttons.len() < MAX_BUTTONS {
        p.buttons.len()
    } else {
        MAX_BUTTONS
    };
    let mut i: usize = 0;
    while i < n
        invariant
            n <= p.buttons@.len(),
            i <= n,
            buttons@.len() == i,
            forall|k: int|
                0 <= k < i ==> (#[trigger] buttons@[k]).0@ == truncated(
                    p.buttons@[k].0@,
                    MAX_BUTTON_LABEL_CHARS as nat,
                ) && buttons@[k].1@ == p.buttons@[k].1@,
        decreases n - i,
    {
        let label = truncate(p.buttons[i].0.as_str(), MAX_BUTTON_LABEL_CHARS);
        let url = p.buttons[i].1.clone();
        buttons.push((label, url));
        i += 1;
    }
    ActivityFields {
        details: cut_opt_exec(&p.details, MAX_FIELD_CHARS),
        state: cut_opt_exec(&p.state, MAX_FIELD_CHARS),
        start: time_opt_exec(p.start),
        end: time_opt_exec(p.end),
        large_image: cut_opt_exec(&p.large_image, MAX_FIELD_CHARS),
        large_text: cut_opt_exec(&p.large_text, MAX_FIELD_CHARS),
        small_image: cut_opt_exec(&p.small_image, MAX_FIELD_CHARS),
        small_text: cut_opt_exec(&p.small_text, MAX_FIELD_CHARS),
        buttons,
    }
}

// ---------------------------------------------------------------------------
// Framing
// ---------------------------------------------------------------------------

/// An IPC frame: opcode, body length, body.
pub open spec fn frame_bytes(opcode: u32, body: Seq<u8>) -> Seq<u8> {
    le32(opcode as int) + le32(body.len() as int) + body
}

/// Frame a message body.
pub fn encode_frame(opcode: u32, body: &[u8]) -> (r: Vec<u8>)
    requires
        body@.len() <= u32::MAX,
    ensures
        r@ == frame_bytes(opcode, body@),
{
    let mut frame: Vec<u8> = Vec::new();
    push_le32(&mut frame, opcode);
    push_le32(&mut frame, body.len() as u32);
    push_bytes(&mut frame, body);
    frame
}

pub open spec fn read_le32(b: Seq<u8>, at: int) -> int {
    b[at] + 256 * b[at + 1] + 65536 * b[at + 2] + 16777216 * b[at + 3]
}

/// The opcode and body length of a frame header; bodies over 1 MiB are
/// refused.
pub fn decode_frame_header(header: &[u8; 8]) -> (r: Result<(u32, u32), RedStrapError>)
    ensures
        read_le32(header@, 4) > MAX_FRAME_BODY ==> (r matches Err(RedStrapError::Rpc(m)) && m@
            == "Discord IPC frame too large"@),
        read_le32(header@, 4) <= MAX_FRAME_BODY ==> r == Ok::<(u32, u32), RedStrapError>(
            (read_le32(header@, 0) as u32, read_le32(header@, 4) as u32),
        ),
{
    let op: u32 = header[0] as u32 + 256 * (header[1] as u32) + 65536 * (header[2] as u32)
        + 16777216 * (header[3] as u32);
    let len: u32 = header[4] as u32 + 256 * (header[5] as u32) + 65536 * (header[6] as u32)
        + 16777216 * (header[7] as u32);
    if len > MAX_FRAME_BODY {
        return Err(RedStrapError::Rpc(crate::text::str_to_string("Discord IPC frame too large")));
    }
    Ok((op, len))
}

/// Decoding the header of an encoded frame gives back its opcode and body
/// length.
pub proof fn law_frame_header_roundtrip(opcode: u32, body: Seq<u8>)
    requires
        body.len() <= MAX_FRAME_BODY,
    ensures
        read_le32(frame_bytes(opcode, body), 0) == opcode,
        read_le32(frame_bytes(opcode, body), 4) == body.len(),
        frame_bytes(opcode, body).subrange(8, frame_bytes(opcode, body).len() as int) == body,
{
    let f = frame_bytes(opcode, body);
    let x = opcode as int;
    let n = body.len() as int;
    assert(f[0] == (x % 256) as u8 && f[1] == ((x / 256) % 256) as u8);
    assert(f[2] == ((x / 65536) % 256) as u8 && f[3] == ((x / 16777216) % 256) as u8);
    assert(f[4] == (n % 256) as u8 && f[5] == ((n / 256) % 256) as u8);
    assert(f[6] == ((n / 65536) % 256) as u8 && f[7] == ((n / 16777216) % 256) as u8);
    assert((x % 256) + 256 * ((x / 256) % 256) + 65536 * ((x / 65536) % 256) + 16777216 * ((x
        / 16777216) % 256) == x) by (nonlinear_arith)
        requires
            0 <= x < 0x1_0000_0000,
    ;
    assert((n % 256) + 256 * ((n / 256) % 256) + 65536 * ((n / 65536) % 256) + 16777216 * ((n
        / 16777216) % 256) == n) by (nonlinear_arith)
        requires
            0 <= n < 0x1_0000_0000,
    ;
    assert(f.subrange(8, f.len() as int) =~= body);
}

} // verus!
