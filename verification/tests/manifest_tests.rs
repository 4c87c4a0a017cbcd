use redstrap::error::RedStrapError;
use redstrap::manifest::parse_package_manifest;

const SAMPLE: &str = "v0\nRobloxApp.zip\n900150983cd24fb0d6963f7d28e17f72\n100\n200\nExtra.zip\nAAAAAAAAAAAAAAAAAAAAAAAAAAAAAAAA\n50\n60\nRobloxPlayerLauncher.exe\n";

#[test]
fn parses_sample_manifest() {
    let pkgs = parse_package_manifest(SAMPLE).expect("parse");
    assert_eq!(pkgs.len(), 2);
    assert_eq!(pkgs[0].name, "RobloxApp.zip");
    assert_eq!(pkgs[0].packed_size, 100);
    assert_eq!(pkgs[0].size, 200);
    assert_eq!(pkgs[1].signature, "aaaaaaaaaaaaaaaaaaaaaaaaaaaaaaaa");
}

#[test]
fn rejects_bad_versions() {
    assert!(parse_package_manifest("").is_err());
    assert!(parse_package_manifest("v9\n").is_err());
    assert!(parse_package_manifest("v0\n").is_err());
}

#[test]
fn manifest_error_messages() {
    match parse_package_manifest("v9\n") {
        Err(RedStrapError::Manifest(m)) => {
            assert_eq!(m, "unsupported package manifest version 'v9' (expected 'v0')")
        }
        _ => panic!("expected a manifest error"),
    }
    match parse_package_manifest("v0\r\nA.zip\r\nsig\r\nten\r\n5\r\n") {
        Err(RedStrapError::Manifest(m)) => {
            assert_eq!(m, "invalid packed size 'ten' for package 'A.zip'")
        }
        _ => panic!("expected a manifest error"),
    }
    match parse_package_manifest("v0\nA.zip\nsig\n1\nbig\n") {
        Err(RedStrapError::Manifest(m)) => assert_eq!(m, "invalid size 'big' for package 'A.zip'"),
        _ => panic!("expected a manifest error"),
    }
    match parse_package_manifest("") {
        Err(RedStrapError::Manifest(m)) => assert_eq!(m, "manifest is empty"),
        _ => panic!("expected a manifest error"),
    }
}

#[test]
fn crlf_manifest_parses() {
    let pkgs = parse_package_manifest("v0\r\nA.zip\r\nABC\r\n1\r\n2").expect("parse");
    assert_eq!(pkgs.len(), 1);
    assert_eq!(pkgs[0].signature, "abc");
    assert_eq!(pkgs[0].size, 2);
}
