//! Managed shortcuts: launcher entries plus per-game join links.
//!
//! The launcher entries (Player / Studio / Settings on the desktop and in
//! the applications menu) follow the settings toggles. Game shortcuts join
//! a specific place with the game's own icon, fetched from Roblox and
//! wrapped as ICO. This module decides what to write where; writing the
//! files and fetching the icon happen at the edge of the program.

use vstd::prelude::*;

use crate::encoding::{le16, le32, push_bytes, push_le16, push_le32};
use crate::error::RedStrapError;
use crate::imaging::{
    decode_image_rgba, encode_png_rgba, image_rgba, lanczos_256, png_encoded, resize_rgba_256,
};
use crate::roblox::{deeplink_spec, start_deeplink};
use crate::text::{chars_eq_str, dec, push_dec, push_str, string_of, trim, trim_str};
use crate::util::{sanitize_filename, sanitized};

verus! {

// ---------------------------------------------------------------------------
// Managed launcher shortcuts
// ---------------------------------------------------------------------------

/// The shortcut toggles of the settings.
#[derive(Debug, Clone, Copy, PartialEq, Eq)]
pub struct ShortcutToggles {
    pub player: bool,
    pub studio: bool,
    pub settings: bool,
    pub desktop: bool,
    pub start_menu: bool,
}

/// (settings flag, file stem, launch args) of each launcher entry.
pub fn launcher_entries() -> (r: Vec<(&'static str, &'static str, &'static str)>)
    ensures
        r@.len() == 3,
        r@[0].0@ == "player"@ && r@[0].1@ == "RedStrap Player"@ && r@[0].2@ == "--player"@,
        r@[1].0@ == "studio"@ && r@[1].1@ == "RedStrap Studio"@ && r@[1].2@ == "--studio"@,
        r@[2].0@ == "settings"@ && r@[2].1@ == "RedStrap Settings"@ && r@[2].2@ == "--settings"@,
{
    vec![
        ("player", "RedStrap Player", "--player"),
        ("studio", "RedStrap Studio", "--studio"),
        ("settings", "RedStrap Settings", "--settings"),
    ]
}

pub open spec fn entry_enabled_spec(t: ShortcutToggles, key: Seq<char>) -> bool {
    if key == "player"@ {
        t.player
    } else if key == "studio"@ {
        t.studio
    } else if key == "settings"@ {
        t.settings
    } else {
        false
    }
}

/// Whether the toggle named `key` is on; unknown keys are off.
pub fn entry_enabled(toggles: &ShortcutToggles, key: &str) -> (r: bool)
    ensures
        r == entry_enabled_spec(*toggles, key@),
{
    let k = crate::text::chars_of(key);
    if chars_eq_str(k.as_slice(), "player") {
        toggles.player
    } else if chars_eq_str(k.as_slice(), "studio") {
        toggles.studio
    } else if chars_eq_str(k.as_slice(), "settings") {
        toggles.settings
    } else {
        false
    }
}

/// The text of a freedesktop launcher entry.
pub open spec fn desktop_entry_spec(name: Seq<char>, exec: Seq<char>) -> Seq<char> {
    "[Desktop Entry]\nType=Application\nName="@ + name + "\nExec="@ + exec
        + "\nTerminal=false\nCategories=Game;\n"@
}

fn desktop_entry(name: &str, exec: &str) -> (r: String)
    ensures
        r@ == desktop_entry_spec(name@, exec@),
{
    let mut s = String::new();
    push_str(&mut s, "[Desktop Entry]\nType=Application\nName=");
    push_str(&mut s, name);
    push_str(&mut s, "\nExec=");
    push_str(&mut s, exec);
    push_str(&mut s, "\nTerminal=false\nCategories=Game;\n");
    s
}

/// The command line of a launcher entry: the quoted executable, then the
/// arguments as they are.
pub open spec fn launcher_exec(exe: Seq<char>, args: Seq<char>) -> Seq<char> {
    seq!['"'] + exe + seq!['"', ' '] + args
}

/// A launcher entry for `exe` started with `args`.
pub fn launcher_entry_text(name: &str, exe: &str, args: &str) -> (r: String)
    ensures
        r@ == desktop_entry_spec(name@, launcher_exec(exe@, args@)),
{
    let mut exec = String::new();
    push_str(&mut exec, "\"");
    push_str(&mut exec, exe);
    push_str(&mut exec, "\" ");
    push_str(&mut exec, args);
    proof {
        reveal_strlit("\"");
        reveal_strlit("\" ");
    }
    assert(exec@ =~= launcher_exec(exe@, args@));
    desktop_entry(name, exec.as_str())
}

/// One managed shortcut file: where it lives (an index into the locations
/// handed in), its file name, and the entry to write, or `None` when an
/// existing file is to be removed.
#[derive(Debug, Clone)]
pub struct ManagedShortcut {
    pub location: usize,
    pub file_name: String,
    pub content: Option<String>,
}

/// The managed shortcut for launcher entry `e` in location `l`.
pub open spec fn managed_item(
    t: ShortcutToggles,
    locations: Seq<bool>,
    exe: Seq<char>,
    e: int,
    l: int,
) -> (usize, Seq<char>, Option<Seq<char>>) {
    let keys = seq!["player"@, "studio"@, "settings"@];
    let stems = seq!["RedStrap Player"@, "RedStrap Studio"@, "RedStrap Settings"@];
    let args = seq!["--player"@, "--studio"@, "--settings"@];
    let active = entry_enabled_spec(t, keys[e]) && locations[l];
    (
        l as usize,
        stems[e] + ".desktop"@,
        if active {
            Some(desktop_entry_spec(stems[e], launcher_exec(exe, args[e])))
        } else {
            None
        },
    )
}

/// Every launcher entry in every location, entries outermost: a file to
/// write where the entry's toggle and the location's toggle are both on, a
/// file to remove everywhere else.
pub fn managed_shortcuts(toggles: &ShortcutToggles, locations: &[bool], exe: &str) -> (r: Vec<
    ManagedShortcut,
>)
    requires
        3 * locations@.len() <= usize::MAX,
    ensures
        r@.len() == 3 * locations@.len(),
        forall|e: int, l: int|
            0 <= e < 3 && 0 <= l < locations@.len() ==> {
                let item = #[trigger] r@[e * locations@.len() + l];
                let want = managed_item(*toggles, locations@, exe@, e, l);
                &&& item.location == want.0
                &&& item.file_name@ == want.1
                &&& match item.content {
                    Some(c) => want.2 == Some(c@),
                    None => want.2 is None,
                }
            },
{
    let entries = launcher_entries();
    let n = locations.len();
    let mut out: Vec<ManagedShortcut> = Vec::new();
    let mut e: usize = 0;
    while e < 3
        invariant
            e <= 3,
            n == locations@.len(),
            3 * n <= usize::MAX,
            entries@.len() == 3,
            entries@[0].0@ == "player"@ && entries@[0].1@ == "RedStrap Player"@
                && entries@[0].2@ == "--player"@,
            entries@[1].0@ == "studio"@ && entries@[1].1@ == "RedStrap Studio"@
                && entries@[1].2@ == "--studio"@,
            entries@[2].0@ == "settings"@ && entries@[2].1@ == "RedStrap Settings"@
                && entries@[2].2@ == "--settings"@,
            out@.len() == e * n,
            forall|e2: int, l: int|
                0 <= e2 < e && 0 <= l < n ==> {
                    let item = #[trigger] out@[e2 * n + l];
                    let want = managed_item(*toggles, locations@, exe@, e2, l);
                    &&& item.location == want.0
                    &&& item.file_name@ == want.1
                    &&& match item.content {
                        Some(c) => want.2 == Some(c@),
                        None => want.2 is None,
                    }
                },
        decreases 3 - e,
    {
        let (key, stem, args) = entries[e];
        let wanted = entry_enabled(toggles, key);
        let mut l: usize = 0;
        while l < n
            invariant
                e < 3,
                l <= n,
                n == locations@.len(),
                3 * n <= usize::MAX,
                out@.len() == e * n + l,
                key@ == seq!["player"@, "studio"@, "settings"@][e as int],
                stem@ == seq!["RedStrap Player"@, "RedStrap Studio"@, "RedStrap Settings"@][e as int],
                args@ == seq!["--player"@, "--studio"@, "--settings"@][e as int],
                wanted == entry_enabled_spec(*toggles, key@),
                forall|e2: int, l2: int|
                    0 <= e2 < e && 0 <= l2 < n ==> {
                        let item = #[trigger] out@[e2 * n + l2];
                        let want = managed_item(*toggles, locations@, exe@, e2, l2);
                        &&& item.location == want.0
                        &&& item.file_name@ == want.1
                        &&& match item.content {
                            Some(c) => want.2 == Some(c@),
                            None => want.2 is None,
                        }
                    },
                forall|l2: int|
                    0 <= l2 < l ==> {
                        let item = #[trigger] out@[e * n + l2];
                        let want = managed_item(*toggles, locations@, exe@, e as int, l2);
                        &&& item.location == want.0
                        &&& item.file_name@ == want.1
                        &&& match item.content {
                            Some(c) => want.2 == Some(c@),
                            None => want.2 is None,
                        }
                    },
            decreases n - l,
        {
            let mut file_name = String::new();
            push_str(&mut file_name, stem);
            push_str(&mut file_name, ".desktop");
            let content = if wanted && locations[l] {
                Some(launcher_entry_text(stem, exe, args))
            } else {
                None
            };
            let ghost prev = out@;
            out.push(ManagedShortcut { location: l, file_name, content });
            proof {
                assert forall|e2: int, l2: int| 0 <= e2 < e && 0 <= l2 < n implies #[trigger] out@[e2
                    * n + l2] == prev[e2 * n + l2] by {
                    assert(e2 * n + l2 < e * n) by (nonlinear_arith)
                        requires
                            0 <= e2 < e,
                            0 <= l2 < n,
                    ;
                }
            }
            l += 1;
        }
        proof {
            assert forall|e2: int, l2: int| 0 <= e2 < e + 1 && 0 <= l2 < n implies {
                let item = #[trigger] out@[e2 * n + l2];
                let want = managed_item(*toggles, locations@, exe@, e2, l2);
                &&& item.location == want.0
                &&& item.file_name@ == want.1
                &&& match item.content {
                    Some(c) => want.2 == Some(c@),
                    None => want.2 is None,
                }
            } by {
                if e2 == e {
                }
            }
            assert((e + 1) * n == e * n + n) by (nonlinear_arith);
        }
        e += 1;
    }
    out
}

// ---------------------------------------------------------------------------
// Game shortcuts
// ---------------------------------------------------------------------------

/// A saved per-game join link.
#[derive(Debug, Clone)]
pub struct GameShortcut {
    pub name: String,
    pub place_id: u64,
    pub job_id: String,
    pub access_code: String,
    pub icon_file: String,
    pub link_file: String,
}

/// What creating a game shortcut writes: the launcher entry text and the
/// file names of the entry, the icon and the saved record, all named
/// after the sanitised shortcut name.
#[derive(Debug, Clone)]
pub struct GameShortcutPlan {
    pub name: String,
    pub deeplink: String,
    pub entry_file: String,
    pub icon_file: String,
    pub record_file: String,
    pub entry: String,
}

/// The command line of a game entry: the quoted executable and the quoted
/// deeplink.
pub open spec fn game_exec(exe: Seq<char>, deeplink: Seq<char>) -> Seq<char> {
    seq!['"'] + exe + seq!['"', ' ', '"'] + deeplink + seq!['"']
}

/// Validate a game shortcut request and lay out what it writes. The place
/// must be non-zero and the name must not be blank.
pub fn plan_game_shortcut(
    name: &str,
    place_id: u64,
    job_id: &str,
    access_code: &str,
    exe: &str,
) -> (r: Result<GameShortcutPlan, RedStrapError>)
    ensures
        place_id == 0 ==> (r matches Err(RedStrapError::Shortcut(m)) && m@
            == "place ID must not be zero"@),
        place_id != 0 && trim(name@).len() == 0 ==> (r matches Err(RedStrapError::Shortcut(m))
            && m@ == "shortcut name must not be empty"@),
        place_id != 0 && trim(name@).len() > 0 ==> (r matches Ok(p) && {
            let stem = sanitized(trim(name@));
            let link = deeplink_spec(place_id as nat, job_id@, access_code@);
            &&& p.name@ == trim(name@)
            &&& p.deeplink@ == link
            &&& p.entry_file@ == stem + ".desktop"@
            &&& p.icon_file@ == stem + ".ico"@
            &&& p.record_file@ == stem + ".json"@
            &&& p.entry@ == desktop_entry_spec(trim(name@), game_exec(exe@, link))
        }),
{
    if place_id == 0 {
        return Err(RedStrapError::Shortcut(crate::text::str_to_string("place ID must not be zero")));
    }
    let trimmed = trim_str(name);
    if trimmed.len() == 0 {
        return Err(
            RedStrapError::Shortcut(crate::text::str_to_string("shortcut name must not be empty")),
        );
    }
    let name_s = string_of(trimmed.as_slice());
    let deeplink = start_deeplink(place_id, job_id, access_code);
    let stem = sanitize_filename(name_s.as_str());
    let mut entry_file = stem.clone();
    push_str(&mut entry_file, ".desktop");
    let mut icon_file = stem.clone();
    push_str(&mut icon_file, ".ico");
    let mut record_file = stem.clone();
    push_str(&mut record_file, ".json");
    let mut exec = String::new();
    push_str(&mut exec, "\"");
    push_str(&mut exec, exe);
    push_str(&mut exec, "\" \"");
    push_str(&mut exec, deeplink.as_str());
    push_str(&mut exec, "\"");
    proof {
        reveal_strlit("\"");
        reveal_strlit("\" \"");
    }
    assert(exec@ =~= game_exec(exe@, deeplink@));
    let entry = desktop_entry(name_s.as_str(), exec.as_str());
    Ok(GameShortcutPlan { name: name_s, deeplink, entry_file, icon_file, record_file, entry })
}

// ---------------------------------------------------------------------------
// Game icons (place -> universe -> thumbnail -> ICO)
// ---------------------------------------------------------------------------

/// Largest thumbnail download accepted for an icon.
pub const MAX_ICON_BYTES: usize = 8388608;

/// The web domain used for icon lookups: the configured one, trimmed, or
/// `roblox.com` when blank.
pub open spec fn icon_domain(configured: Seq<char>) -> Seq<char> {
    if trim(configured).len() == 0 {
        "roblox.com"@
    } else {
        trim(configured)
    }
}

fn icon_domain_exec(configured: &str) -> (r: String)
    ensures
        r@ == icon_domain(configured@),
{
    let t = trim_str(configured);
    if t.len() == 0 {
        crate::text::str_to_string("roblox.com")
    } else {
        string_of(t.as_slice())
    }
}

/// The games API URL giving a universe's details (its name).
pub fn game_list_url(domain: &str, universe_id: u64) -> (r: String)
    ensures
        r@ == "https://games."@ + icon_domain(domain@) + "/v1/games?universeIds="@ + dec(
            universe_id as nat,
        ),
{
    let d = icon_domain_exec(domain);
    let mut s = String::new();
    push_str(&mut s, "https://games.");
    push_str(&mut s, d.as_str());
    push_str(&mut s, "/v1/games?universeIds=");
    push_dec(&mut s, universe_id);
    s
}

/// The thumbnail API URL for a universe's 512 px PNG icon, as shown in
/// rich presence.
pub fn game_icon_url(domain: &str, universe_id: u64) -> (r: String)
    ensures
        r@ == "https://thumbnails."@ + icon_domain(domain@) + "/v1/games/icons?universeIds="@
            + dec(universe_id as nat) + "&size=512x512&format=Png&isCircular=false"@,
{
    let d = icon_domain_exec(domain);
    let mut s = String::new();
    push_str(&mut s, "https://thumbnails.");
    push_str(&mut s, d.as_str());
    push_str(&mut s, "/v1/games/icons?universeIds=");
    push_dec(&mut s, universe_id);
    push_str(&mut s, "&size=512x512&format=Png&isCircular=false");
    s
}

/// The users API URL giving a user's name.
pub fn user_url(domain: &str, user_id: u64) -> (r: String)
    ensures
        r@ == "https://users."@ + icon_domain(domain@) + "/v1/users/"@ + dec(user_id as nat),
{
    let d = icon_domain_exec(domain);
    let mut s = String::new();
    push_str(&mut s, "https://users.");
    push_str(&mut s, d.as_str());
    push_str(&mut s, "/v1/users/");
    push_dec(&mut s, user_id);
    s
}

/// The API URL that maps a place to its universe.
pub fn universe_url(domain: &str, place_id: u64) -> (r: String)
    ensures
        r@ == "https://apis."@ + icon_domain(domain@) + "/universes/v1/places/"@ + dec(
            place_id as nat,
        ) + "/universe"@,
{
    let d = icon_domain_exec(domain);
    let mut s = String::new();
    push_str(&mut s, "https://apis.");
    push_str(&mut s, d.as_str());
    push_str(&mut s, "/universes/v1/places/");
    push_dec(&mut s, place_id);
    push_str(&mut s, "/universe");
    s
}

/// The thumbnail API URL for a universe's 256 px PNG icon.
pub fn icon_thumbnail_url(domain: &str, universe_id: u64) -> (r: String)
    ensures
        r@ == "https://thumbnails."@ + icon_domain(domain@) + "/v1/games/icons?universeIds="@
            + dec(universe_id as nat) + "&size=256x256&format=Png&isCircular=false"@,
{
    let d = icon_domain_exec(domain);
    let mut s = String::new();
    push_str(&mut s, "https://thumbnails.");
    push_str(&mut s, d.as_str());
    push_str(&mut s, "/v1/games/icons?universeIds=");
    push_dec(&mut s, universe_id);
    push_str(&mut s, "&size=256x256&format=Png&isCircular=false");
    s
}

/// Whether a downloaded thumbnail is worth decoding: not empty and at most
/// 8 MiB.
pub fn icon_payload_ok(len: usize) -> (r: bool)
    ensures
        r == (0 < len && len <= MAX_ICON_BYTES),
{
    len > 0 && len <= MAX_ICON_BYTES
}

/// A single-entry ICO holding a 256x256 PNG image.
pub open spec fn ico_bytes(png: Seq<u8>) -> Seq<u8> {
    le16(0) + le16(1) + le16(1) + seq![0u8, 0u8, 0u8, 0u8] + le16(1) + le16(32) + le32(
        png.len() as int % 0x1_0000_0000,
    ) + le32(22) + png
}

/// Wrap PNG bytes as a single-entry ICO (Vista and later read PNG icons).
pub fn wrap_png_ico(png: &[u8]) -> (r: Vec<u8>)
    ensures
        r@ == ico_bytes(png@),
{
    let mut ico: Vec<u8> = Vec::new();
    push_le16(&mut ico, 0);
    push_le16(&mut ico, 1);
    push_le16(&mut ico, 1);
    ico.push(0);
    ico.push(0);
    ico.push(0);
    ico.push(0);
    push_le16(&mut ico, 1);
    push_le16(&mut ico, 32);
    let size: u64 = png.len() as u64 % 0x1_0000_0000;
    push_le32(&mut ico, size as u32);
    push_le32(&mut ico, 22);
    push_bytes(&mut ico, png);
    assert(ico@ =~= ico_bytes(png@));
    ico
}

/// The icon image made from a downloaded picture: decoded, brought to
/// 256x256 (resampled with Lanczos3 unless it has that size already) and
/// encoded as PNG; `None` when it cannot be decoded or encoded.
pub open spec fn icon_png(bytes: Seq<u8>) -> Option<Seq<u8>> {
    match image_rgba(bytes) {
        None => None,
        Some(img) => if img.0 != 256 || img.1 != 256 {
            png_encoded(256, 256, lanczos_256(img.0, img.1, img.2))
        } else {
            png_encoded(256, 256, img.2)
        },
    }
}

/// Decode, normalize to 256x256 RGBA, and re-encode as PNG.
pub fn make_icon_png(bytes: &[u8]) -> (r: Option<Vec<u8>>)
    ensures
        match icon_png(bytes@) {
            Some(p) => r matches Some(v) && v@ == p,
            None => r is None,
        },
{
    let (width, height, raw) = match decode_image_rgba(bytes) {
        Some(t) => t,
        None => return None,
    };
    let pixels = if width != 256 || height != 256 {
        resize_rgba_256(width, height, raw)
    } else {
        raw
    };
    match encode_png_rgba(256, 256, pixels.as_slice()) {
        Ok(png) => Some(png),
        Err(_) => None,
    }
}

/// The `.ico` file written for a downloaded game icon: nothing for an empty
/// or oversized download or an undecodable picture; otherwise the 256x256
/// PNG icon wrapped as a single-entry ICO.
pub fn icon_file(bytes: &[u8]) -> (r: Option<Vec<u8>>)
    ensures
        !(0 < bytes@.len() <= MAX_ICON_BYTES) ==> r is None,
        0 < bytes@.len() <= MAX_ICON_BYTES ==> match icon_png(bytes@) {
            Some(p) => r matches Some(v) && v@ == ico_bytes(p),
            None => r is None,
        },
{
    if !icon_payload_ok(bytes.len()) {
        return None;
    }
    match make_icon_png(bytes) {
        Some(png) => Some(wrap_png_ico(png.as_slice())),
        None => None,
    }
}

} // verus!
