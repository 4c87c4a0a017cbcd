//! Unified error type for Red Strap.
//!
//! Every fallible operation in the workspace funnels through [`RedStrapError`] so
//! failures always carry actionable context and are surfaced to the user
//! through dialogs / logs instead of panics.

use std::path::PathBuf;

use vstd::prelude::*;

use crate::text::{dec, push_dec, push_str, str_to_string};

verus! {

#[verifier::external_type_specification]
#[verifier::external_body]
pub struct ExIoError(std::io::Error);

#[verifier::external_type_specification]
#[verifier::external_body]
pub struct ExJsonError(serde_json::Error);

#[verifier::external_type_specification]
#[verifier::external_body]
pub struct ExHttpError(reqwest::Error);

#[verifier::external_type_specification]
#[verifier::external_body]
pub struct ExXmlError(quick_xml::errors::Error);

#[verifier::external_type_specification]
#[verifier::external_body]
pub struct ExImageError(image::ImageError);

#[verifier::external_type_specification]
#[verifier::external_body]
pub struct ExPathBuf(PathBuf);

/// All recoverable failures Red Strap can report.
#[derive(Debug)]
pub enum RedStrapError {
    Io(std::io::Error),
    Json(serde_json::Error),
    Http(reqwest::Error),
    Xml(quick_xml::errors::Error),
    Image(image::ImageError),
    Path(String),
    Config(String),
    VersionParse(String),
    Manifest(String),
    Checksum { file: String, expected: String, actual: String },
    Cancelled,
    Extraction(String),
    InvalidChannel { channel: String, status: u16 },
    NotInstalledUpdatesBlocked,
    DistributionMissing(String),
    Launch { exe: String, reason: String },
    Process(String),
    AlreadyRunning,
    Win32(u32),
    Registry(String),
    Shortcut(String),
    Unsupported(String),
    Rpc(String),
    Update(String),
    Font(String),
    Mod(String),
    GameSettings(String),
    Other(String),
}

/// Short title of each failure class.
pub open spec fn error_title(e: &RedStrapError) -> Seq<char> {
    match e {
        RedStrapError::Io(_) => "File Error"@,
        RedStrapError::Json(_) => "Data Error"@,
        RedStrapError::Http(_) => "Network Error"@,
        RedStrapError::Xml(_) => "Data Error"@,
        RedStrapError::Image(_) => "Image Error"@,
        RedStrapError::Path(_) => "Path Error"@,
        RedStrapError::Config(_) => "Configuration Error"@,
        RedStrapError::VersionParse(_) => "Version Error"@,
        RedStrapError::Manifest(_) => "Download Error"@,
        RedStrapError::Checksum { .. } => "Download Error"@,
        RedStrapError::Cancelled => "Cancelled"@,
        RedStrapError::Extraction(_) => "Install Error"@,
        RedStrapError::InvalidChannel { .. } => "Channel Error"@,
        RedStrapError::NotInstalledUpdatesBlocked => "Not Installed"@,
        RedStrapError::DistributionMissing(_) => "Not Installed"@,
        RedStrapError::Launch { .. } => "Launch Error"@,
        RedStrapError::Process(_) => "Process Error"@,
        RedStrapError::AlreadyRunning => "Already Running"@,
        RedStrapError::Win32(_) => "System Error"@,
        RedStrapError::Registry(_) => "System Error"@,
        RedStrapError::Shortcut(_) => "Shortcut Error"@,
        RedStrapError::Unsupported(_) => "Unsupported"@,
        RedStrapError::Rpc(_) => "Discord Error"@,
        RedStrapError::Update(_) => "Update Error"@,
        RedStrapError::Font(_) => "Font Error"@,
        RedStrapError::Mod(_) => "Mod Error"@,
        RedStrapError::GameSettings(_) => "Settings Error"@,
        RedStrapError::Other(_) => "Error"@,
    }
}

impl RedStrapError {
    /// Attach a file path to an I/O-flavoured error for clearer messages:
    /// `"{path}: {err}"`, the error shown as its `Display` impl renders it.
    pub fn with_path(path: &str, err: std::io::Error) -> (r: RedStrapError)
        ensures
            r matches RedStrapError::Other(m) && exists|e: Seq<char>| m@ == path@ + ": "@ + e,
    {
        let detail = io_error_text(&err);
        let mut m = str_to_string(path);
        push_str(&mut m, ": ");
        push_str(&mut m, detail.as_str());
        assert(m@ == path@ + ": "@ + detail@);
        RedStrapError::Other(m)
    }

    /// Short, user-friendly title describing the failure class.
    pub fn title(&self) -> (r: &'static str)
        ensures
            r@ == error_title(self),
    {
        match self {
            RedStrapError::Io(_) => "File Error",
            RedStrapError::Json(_) => "Data Error",
            RedStrapError::Http(_) => "Network Error",
            RedStrapError::Xml(_) => "Data Error",
            RedStrapError::Image(_) => "Image Error",
            RedStrapError::Path(_) => "Path Error",
            RedStrapError::Config(_) => "Configuration Error",
            RedStrapError::VersionParse(_) => "Version Error",
            RedStrapError::Manifest(_) => "Download Error",
            RedStrapError::Checksum { .. } => "Download Error",
            RedStrapError::Cancelled => "Cancelled",
            RedStrapError::Extraction(_) => "Install Error",
            RedStrapError::InvalidChannel { .. } => "Channel Error",
            RedStrapError::NotInstalledUpdatesBlocked => "Not Installed",
            RedStrapError::DistributionMissing(_) => "Not Installed",
            RedStrapError::Launch { .. } => "Launch Error",
            RedStrapError::Process(_) => "Process Error",
            RedStrapError::AlreadyRunning => "Already Running",
            RedStrapError::Win32(_) => "System Error",
            RedStrapError::Registry(_) => "System Error",
            RedStrapError::Shortcut(_) => "Shortcut Error",
            RedStrapError::Unsupported(_) => "Unsupported",
            RedStrapError::Rpc(_) => "Discord Error",
            RedStrapError::Update(_) => "Update Error",
            RedStrapError::Font(_) => "Font Error",
            RedStrapError::Mod(_) => "Mod Error",
            RedStrapError::GameSettings(_) => "Settings Error",
            RedStrapError::Other(_) => "Error",
        }
    }
}


/// Whether the error wraps an error value of another crate, whose text
/// that crate renders.
pub open spec fn carries_outside(e: &RedStrapError) -> bool {
    match e {
        RedStrapError::Io(_) | RedStrapError::Json(_) | RedStrapError::Http(_)
        | RedStrapError::Xml(_) | RedStrapError::Image(_) => true,
        _ => false,
    }
}

/// The text shown for an error; `detail` is the wrapped error's own text
/// (used only by the variants that wrap one).
pub open spec fn error_message(e: &RedStrapError, detail: Seq<char>) -> Seq<char> {
    match e {
        RedStrapError::Io(_) => "I/O error: "@ + detail,
        RedStrapError::Json(_) => "failed to parse JSON: "@ + detail,
        RedStrapError::Http(_) => "network request failed: "@ + detail,
        RedStrapError::Xml(_) => "failed to parse XML: "@ + detail,
        RedStrapError::Image(_) => "image error: "@ + detail,
        RedStrapError::Path(s) => "file system path error: "@ + s@,
        RedStrapError::Config(s) => "configuration error: "@ + s@,
        RedStrapError::VersionParse(s) => "invalid version string '"@ + s@ + "'"@,
        RedStrapError::Manifest(s) => "package manifest error: "@ + s@,
        RedStrapError::Checksum { file, expected, actual } => "download checksum mismatch for '"@
            + file@ + "': expected "@ + expected@ + ", got "@ + actual@,
        RedStrapError::Cancelled => "download was cancelled"@,
        RedStrapError::Extraction(s) => "package extraction failed: "@ + s@,
        RedStrapError::InvalidChannel { channel, status } => "unknown or private Roblox channel '"@
            + channel@ + "' (HTTP "@ + dec(*status as nat) + ")"@,
        RedStrapError::NotInstalledUpdatesBlocked =>
            "Roblox is not installed and automatic updates are disabled"@,
        RedStrapError::DistributionMissing(s) => "no installed Roblox version found for "@ + s@,
        RedStrapError::Launch { exe, reason } => "failed to launch '"@ + exe@ + "': "@ + reason@,
        RedStrapError::Process(s) => "process operation failed: "@ + s@,
        RedStrapError::AlreadyRunning => "another Red Strap window of this kind is already open"@,
        RedStrapError::Win32(code) => "Windows API call failed with error code "@ + dec(*code as nat),
        RedStrapError::Registry(s) => "registry operation failed: "@ + s@,
        RedStrapError::Shortcut(s) => "shortcut creation failed: "@ + s@,
        RedStrapError::Unsupported(s) => "unsupported on this platform: "@ + s@,
        RedStrapError::Rpc(s) => "Discord rich presence error: "@ + s@,
        RedStrapError::Update(s) => "update check failed: "@ + s@,
        RedStrapError::Font(s) => "font error: "@ + s@,
        RedStrapError::Mod(s) => "mod error: "@ + s@,
        RedStrapError::GameSettings(s) => "Roblox settings file error: "@ + s@,
        RedStrapError::Other(s) => s@,
    }
}

/// `std::io::Error`'s `Display` text. Nothing is claimed of it.
#[verifier::external_body]
fn io_error_text(e: &std::io::Error) -> (r: String) {
    format!("{}", e)
}

/// `serde_json::Error`'s `Display` text. Nothing is claimed of it.
#[verifier::external_body]
fn json_error_text(e: &serde_json::Error) -> (r: String) {
    format!("{}", e)
}

/// `reqwest::Error`'s `Display` text. Nothing is claimed of it.
#[verifier::external_body]
fn http_error_text(e: &reqwest::Error) -> (r: String) {
    format!("{}", e)
}

/// `quick_xml::errors::Error`'s `Display` text. Nothing is claimed of it.
#[verifier::external_body]
fn xml_error_text(e: &quick_xml::errors::Error) -> (r: String) {
    format!("{}", e)
}

/// `image::ImageError`'s `Display` text. Nothing is claimed of it.
#[verifier::external_body]
fn image_error_text(e: &image::ImageError) -> (r: String) {
    format!("{}", e)
}

fn prefixed(prefix: &str, rest: &str) -> (r: String)
    ensures
        r@ == prefix@ + rest@,
{
    let mut s = str_to_string(prefix);
    push_str(&mut s, rest);
    s
}

impl RedStrapError {
    /// The text shown to the user for this error.
    pub fn message(&self) -> (r: String)
        ensures
            !carries_outside(self) ==> r@ == error_message(self, Seq::empty()),
            carries_outside(self) ==> exists|d: Seq<char>| r@ == #[trigger] error_message(self, d),
    {
        match self {
            RedStrapError::Io(e) => {
                let d = io_error_text(e);
                let r = prefixed("I/O error: ", d.as_str());
                assert(r@ == error_message(self, d@));
                r
            },
            RedStrapError::Json(e) => {
                let d = json_error_text(e);
                let r = prefixed("failed to parse JSON: ", d.as_str());
                assert(r@ == error_message(self, d@));
                r
            },
            RedStrapError::Http(e) => {
                let d = http_error_text(e);
                let r = prefixed("network request failed: ", d.as_str());
                assert(r@ == error_message(self, d@));
                r
            },
            RedStrapError::Xml(e) => {
                let d = xml_error_text(e);
                let r = prefixed("failed to parse XML: ", d.as_str());
                assert(r@ == error_message(self, d@));
                r
            },
            RedStrapError::Image(e) => {
                let d = image_error_text(e);
                let r = prefixed("image error: ", d.as_str());
                assert(r@ == error_message(self, d@));
                r
            },
            RedStrapError::Path(s) => prefixed("file system path error: ", s.as_str()),
            RedStrapError::Config(s) => prefixed("configuration error: ", s.as_str()),
            RedStrapError::VersionParse(s) => {
                let mut r = prefixed("invalid version string '", s.as_str());
                push_str(&mut r, "'");
                r
            },
            RedStrapError::Manifest(s) => prefixed("package manifest error: ", s.as_str()),
            RedStrapError::Checksum { file, expected, actual } => {
                let mut r = prefixed("download checksum mismatch for '", file.as_str());
                push_str(&mut r, "': expected ");
                push_str(&mut r, expected.as_str());
                push_str(&mut r, ", got ");
                push_str(&mut r, actual.as_str());
                r
            },
            RedStrapError::Cancelled => str_to_string("download was cancelled"),
            RedStrapError::Extraction(s) => prefixed("package extraction failed: ", s.as_str()),
            RedStrapError::InvalidChannel { channel, status } => {
                let mut r = prefixed("unknown or private Roblox channel '", channel.as_str());
                push_str(&mut r, "' (HTTP ");
                push_dec(&mut r, *status as u64);
                push_str(&mut r, ")");
                r
            },
            RedStrapError::NotInstalledUpdatesBlocked => str_to_string(
                "Roblox is not installed and automatic updates are disabled",
            ),
            RedStrapError::DistributionMissing(s) => prefixed(
                "no installed Roblox version found for ",
                s.as_str(),
            ),
            RedStrapError::Launch { exe, reason } => {
                let mut r = prefixed("failed to launch '", exe.as_str());
                push_str(&mut r, "': ");
                push_str(&mut r, reason.as_str());
                r
            },
            RedStrapError::Process(s) => prefixed("process operation failed: ", s.as_str()),
            RedStrapError::AlreadyRunning => str_to_string(
                "another Red Strap window of this kind is already open",
            ),
            RedStrapError::Win32(code) => {
                let mut r = str_to_string("Windows API call failed with error code ");
                push_dec(&mut r, *code as u64);
                r
            },
            RedStrapError::Registry(s) => prefixed("registry operation failed: ", s.as_str()),
            RedStrapError::Shortcut(s) => prefixed("shortcut creation failed: ", s.as_str()),
            RedStrapError::Unsupported(s) => prefixed("unsupported on this platform: ", s.as_str()),
            RedStrapError::Rpc(s) => prefixed("Discord rich presence error: ", s.as_str()),
            RedStrapError::Update(s) => prefixed("update check failed: ", s.as_str()),
            RedStrapError::Font(s) => prefixed("font error: ", s.as_str()),
            RedStrapError::Mod(s) => prefixed("mod error: ", s.as_str()),
            RedStrapError::GameSettings(s) => prefixed("Roblox settings file error: ", s.as_str()),
            RedStrapError::Other(s) => s.clone(),
        }
    }
}

} // verus!
