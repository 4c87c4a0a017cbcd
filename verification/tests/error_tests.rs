use redstrap::error::RedStrapError;

#[test]
fn checksum_message_names_file_and_hashes() {
    let e = RedStrapError::Checksum {
        file: String::from("RobloxApp.zip"),
        expected: String::from("aa"),
        actual: String::from("bb"),
    };
    assert_eq!(
        e.message(),
        "download checksum mismatch for 'RobloxApp.zip': expected aa, got bb"
    );
    assert_eq!(e.title(), "Download Error");
}

#[test]
fn channel_message_includes_status() {
    let e = RedStrapError::InvalidChannel { channel: String::from("zekk"), status: 404 };
    assert_eq!(e.message(), "unknown or private Roblox channel 'zekk' (HTTP 404)");
}

#[test]
fn plain_messages() {
    assert_eq!(RedStrapError::Cancelled.message(), "download was cancelled");
    assert_eq!(
        RedStrapError::NotInstalledUpdatesBlocked.message(),
        "Roblox is not installed and automatic updates are disabled"
    );
    assert_eq!(RedStrapError::Win32(5).message(), "Windows API call failed with error code 5");
    assert_eq!(RedStrapError::Other(String::from("as is")).message(), "as is");
    assert_eq!(
        RedStrapError::VersionParse(String::from("x.y")).message(),
        "invalid version string 'x.y'"
    );
}

#[test]
fn wrapped_io_error_text_follows_prefix() {
    let e = RedStrapError::Io(std::io::Error::new(std::io::ErrorKind::Other, "disk gone"));
    assert_eq!(e.message(), "I/O error: disk gone");
}

#[test]
fn with_path_joins_path_and_error() {
    let e = RedStrapError::with_path(
        "/tmp/x",
        std::io::Error::new(std::io::ErrorKind::Other, "denied"),
    );
    assert_eq!(e.message(), "/tmp/x: denied");
}
