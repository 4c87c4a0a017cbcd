use redstrap::util::{format_bytes, format_duration_secs, md5_hex_bytes, sanitize_filename, to_wide};

#[test]
fn md5_matches_known_vector() {
    // MD5("abc") — the canonical test vector.
    assert_eq!(md5_hex_bytes(b"abc"), "900150983cd24fb0d6963f7d28e17f72");
}

#[test]
fn md5_of_empty_input() {
    assert_eq!(md5_hex_bytes(b""), "d41d8cd98f00b204e9800998ecf8427e");
}

#[test]
fn byte_formatting() {
    assert_eq!(format_bytes(0), "0 B");
    assert_eq!(format_bytes(512), "512 B");
    assert_eq!(format_bytes(1024), "1.0 KB");
    assert_eq!(format_bytes(1536), "1.5 KB");
    assert_eq!(format_bytes(5 * 1024 * 1024), "5.0 MB");
}

/// The same computation done with floating point, as a reference.
fn float_format_bytes(bytes: u64) -> String {
    const UNITS: [&str; 5] = ["B", "KB", "MB", "GB", "TB"];
    let mut value = bytes as f64;
    let mut unit = 0;
    while value >= 1024.0 && unit < UNITS.len() - 1 {
        value /= 1024.0;
        unit += 1;
    }
    if unit == 0 {
        format!("{} {}", bytes, UNITS[unit])
    } else {
        format!("{:.1} {}", value, UNITS[unit])
    }
}

#[test]
fn byte_formatting_matches_floating_point() {
    let mut samples: Vec<u64> = vec![
        1023, 1024, 1025, 1280, 1331, 1126, 10_000, 1_048_575, 1_048_576, 1_500_000,
        1_073_741_823, 5_000_000_000, 1_099_511_627_775, 1_099_511_627_776,
        (1u64 << 53) - 1, 1u64 << 53, (1u64 << 53) + 1, (1u64 << 53) + 3, u64::MAX,
        u64::MAX - 1024, 1_125_899_906_842_624 * 1000,
    ];
    let mut x: u64 = 0x9E37_79B9_7F4A_7C15;
    for _ in 0..20_000 {
        x ^= x << 13;
        x ^= x >> 7;
        x ^= x << 17;
        samples.push(x >> (x % 64));
    }
    for b in samples {
        assert_eq!(format_bytes(b), float_format_bytes(b), "bytes = {b}");
    }
}

#[test]
fn ties_round_to_even() {
    // 1280 bytes is exactly 1.25 KB.
    assert_eq!(format_bytes(1280), "1.2 KB");
    // 1.75 KB.
    assert_eq!(format_bytes(1792), "1.8 KB");
}

#[test]
fn duration_formatting() {
    assert_eq!(format_duration_secs(45), "45s");
    assert_eq!(format_duration_secs(65), "1m 05s");
    assert_eq!(format_duration_secs(5025), "1h 23m");
}

#[test]
fn duration_edges() {
    assert_eq!(format_duration_secs(0), "0s");
    assert_eq!(format_duration_secs(3600), "1h 00m");
    assert_eq!(format_duration_secs(600), "10m 00s");
}

#[test]
fn filename_sanitizer() {
    assert_eq!(sanitize_filename("Hello: World?"), "Hello_ World_");
    assert_eq!(sanitize_filename("   "), "unnamed");
    assert_eq!(sanitize_filename("trailing..."), "trailing");
    assert_eq!(sanitize_filename("CON"), "CON_");
    assert!(sanitize_filename(&"a".repeat(200)).chars().count() <= 80);
}

#[test]
fn filename_sanitizer_edges() {
    assert_eq!(sanitize_filename("lpt9"), "lpt9_");
    assert_eq!(sanitize_filename("a\tb\u{7f}"), "a_b_");
    let long = format!("{}. . x", "b".repeat(78));
    assert_eq!(sanitize_filename(&long), "b".repeat(78));
}

#[test]
fn wide_strings_are_nul_terminated() {
    assert_eq!(to_wide("ab"), vec![0x61, 0x62, 0]);
    assert_eq!(to_wide("😀"), vec![0xD83D, 0xDE00, 0]);
}
