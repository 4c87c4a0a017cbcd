use image::ImageEncoder;
use redstrap::shortcut::{
    build_lnk, ShortcutSpec, HAS_ARGUMENTS, HAS_ICON_LOCATION, HAS_LINK_INFO, HAS_NAME,
    HAS_WORKING_DIR, IS_UNICODE,
};

const LINK_CLSID: [u8; 16] = [
    0x01, 0x14, 0x02, 0x00, 0x00, 0x00, 0x00, 0x00, 0xC0, 0x00, 0x00, 0x00, 0x00, 0x00, 0x00, 0x46,
];

fn read_u16(data: &[u8], off: usize) -> u16 {
    u16::from_le_bytes([data[off], data[off + 1]])
}

fn read_u32(data: &[u8], off: usize) -> u32 {
    u32::from_le_bytes([data[off], data[off + 1], data[off + 2], data[off + 3]])
}

fn read_wstring(data: &[u8], off: usize) -> String {
    let end = data[off..]
        .chunks_exact(2)
        .position(|c| c == [0, 0])
        .map(|p| off + p * 2)
        .unwrap_or(data.len());
    let units: Vec<u16> = data[off..end]
        .chunks_exact(2)
        .map(|c| u16::from_le_bytes([c[0], c[1]]))
        .collect();
    String::from_utf16_lossy(&units)
}

#[test]
fn layout_roundtrips() {
    let spec = ShortcutSpec {
        target: String::from("C:/Apps/RedStrap/RedStrap.exe"),
        args: String::from("--settings"),
        working_dir: String::from("C:\\Apps\\RedStrap"),
        icon: Some(String::from("C:\\Apps\\RedStrap\\game.ico")),
        description: Some(String::from("Red Strap settings")),
    };
    let lnk = build_lnk(&spec);

    // Header.
    assert_eq!(read_u32(&lnk, 0), 76);
    assert_eq!(&lnk[4..20], &LINK_CLSID);
    let flags = read_u32(&lnk, 20);
    assert_ne!(flags & HAS_LINK_INFO, 0);
    assert_ne!(flags & IS_UNICODE, 0);
    assert_ne!(flags & HAS_ARGUMENTS, 0);
    assert_ne!(flags & HAS_ICON_LOCATION, 0);

    // LinkInfo offsets resolve to the right strings.
    let info_off = 76usize;
    let total = read_u32(&lnk, info_off) as usize;
    assert_eq!(read_u32(&lnk, info_off + 4), 36);
    let uni_base = read_u32(&lnk, info_off + 28) as usize;
    let uni_suffix = read_u32(&lnk, info_off + 32) as usize;
    assert_eq!(read_wstring(&lnk, info_off + uni_base), "C:\\Apps\\RedStrap\\RedStrap.exe");
    assert_eq!(read_wstring(&lnk, info_off + uni_suffix), "RedStrap.exe");

    // StringData section.
    let mut off = info_off + total;
    let mut strings = Vec::new();
    // Name, WorkingDir, Arguments, IconLocation (in order).
    for _ in 0..4 {
        let count = read_u16(&lnk, off) as usize;
        off += 2;
        let units: Vec<u16> = lnk[off..off + count * 2]
            .chunks_exact(2)
            .map(|c| u16::from_le_bytes([c[0], c[1]]))
            .collect();
        strings.push(String::from_utf16_lossy(&units));
        off += count * 2;
    }
    assert_eq!(strings[0], "Red Strap settings");
    assert_eq!(strings[1], "C:\\Apps\\RedStrap");
    assert_eq!(strings[2], "--settings");
    assert_eq!(strings[3], "C:\\Apps\\RedStrap\\game.ico,0");

    // Terminal block.
    assert_eq!(read_u32(&lnk, off), 0);
    assert_eq!(off + 4, lnk.len());
}

#[test]
fn minimal_shortcut_has_no_optional_strings() {
    let spec = ShortcutSpec::new("C:\\Apps\\RedStrap.exe");
    let lnk = build_lnk(&spec);
    let flags = read_u32(&lnk, 20);
    assert_eq!(flags & HAS_ARGUMENTS, 0);
    assert_eq!(flags & HAS_ICON_LOCATION, 0);
    assert_eq!(flags & HAS_NAME, 0);
    assert_ne!(flags & HAS_WORKING_DIR, 0);
}

#[test]
fn new_spec_uses_target_folder_as_working_dir() {
    let spec = ShortcutSpec::new("C:/Games/Roblox/Player.exe");
    assert_eq!(spec.working_dir, "C:/Games/Roblox");
    assert_eq!(ShortcutSpec::new("C:\\Apps\\RedStrap.exe").working_dir, "C:\\Apps");
    assert_eq!(ShortcutSpec::new("C:\\RedStrap.exe").working_dir, "C:\\");
    assert_eq!(ShortcutSpec::new("Player.exe").working_dir, "");
}

#[test]
fn non_ascii_paths_keep_unicode_copies() {
    let spec = ShortcutSpec {
        target: String::from("C:\\Jeux\\Café.exe"),
        args: String::new(),
        working_dir: String::new(),
        icon: Some(String::from("C:\\i.ico,3")),
        description: None,
    };
    let lnk = build_lnk(&spec);
    let info_off = 76usize;
    let base_off = read_u32(&lnk, info_off + 16) as usize;
    // ANSI copy replaces each byte of the two-byte 'é' with '?'.
    let ansi: Vec<u8> = lnk[info_off + base_off..].iter().take_while(|b| **b != 0).cloned().collect();
    assert_eq!(ansi, b"C:\\Jeux\\Caf??.exe".to_vec());
    let uni_base = read_u32(&lnk, info_off + 28) as usize;
    assert_eq!(read_wstring(&lnk, info_off + uni_base), "C:\\Jeux\\Café.exe");
    // Working directory falls back to the target's folder; icon index kept.
    let total = read_u32(&lnk, info_off) as usize;
    let mut off = info_off + total;
    let count = read_u16(&lnk, off) as usize;
    off += 2;
    let units: Vec<u16> = lnk[off..off + count * 2].chunks_exact(2).map(|c| u16::from_le_bytes([c[0], c[1]])).collect();
    assert_eq!(String::from_utf16_lossy(&units), "C:\\Jeux");
    off += count * 2;
    let count = read_u16(&lnk, off) as usize;
    off += 2;
    let units: Vec<u16> = lnk[off..off + count * 2].chunks_exact(2).map(|c| u16::from_le_bytes([c[0], c[1]])).collect();
    assert_eq!(String::from_utf16_lossy(&units), "C:\\i.ico,3");
}

#[test]
fn game_icons_become_256px_ico_files() {
    let mut png = Vec::new();
    image::codecs::png::PngEncoder::new(&mut png)
        .write_image(&[200u8; 4 * 4 * 4], 4, 4, image::ExtendedColorType::Rgba8)
        .expect("encode");
    let icon = redstrap::shortcuts::make_icon_png(&png).expect("icon");
    let decoded = image::load_from_memory(&icon).expect("decode");
    assert_eq!((decoded.width(), decoded.height()), (256, 256));
    let ico = redstrap::shortcuts::icon_file(&png).expect("ico");
    assert_eq!(&ico[0..6], &[0, 0, 1, 0, 1, 0]);
    assert_eq!(&ico[22..], &icon[..]);
    assert!(redstrap::shortcuts::icon_file(&[]).is_none());
    assert!(redstrap::shortcuts::icon_file(b"garbage").is_none());
}
