//! Registry key names used by Red Strap (HKCU only).
//!
//! Install records, URL protocols, and per-application graphics settings
//! all live under HKEY_CURRENT_USER, so no elevation is ever required. The
//! registry itself is accessed by the caller; this module names the keys
//! and decides the values written to them.

use vstd::prelude::*;

use crate::consts::APP_NAME;
use crate::text::{push_char, push_str, str_to_string};

verus! {

/// `Software\Microsoft\Windows\CurrentVersion\Uninstall\RedStrap`
pub fn uninstall_key() -> (r: String)
    ensures
        r@ == "Software\\Microsoft\\Windows\\CurrentVersion\\Uninstall\\"@ + APP_NAME@,
{
    let mut s = str_to_string("Software\\Microsoft\\Windows\\CurrentVersion\\Uninstall\\");
    push_str(&mut s, APP_NAME);
    s
}

/// `Software\RedStrap`
pub fn app_key() -> (r: String)
    ensures
        r@ == "Software\\"@ + APP_NAME@,
{
    let mut s = str_to_string("Software\\");
    push_str(&mut s, APP_NAME);
    s
}

/// URL protocol key, e.g. `Software\Classes\roblox-player`.
pub fn protocol_key(protocol: &str) -> (r: String)
    ensures
        r@ == "Software\\Classes\\"@ + protocol@,
{
    let mut s = str_to_string("Software\\Classes\\");
    push_str(&mut s, protocol);
    s
}

/// The data of one registry value.
#[derive(Debug, Clone)]
pub enum RegistryData {
    /// `REG_SZ`.
    Text(String),
    /// `REG_DWORD`.
    Dword(u32),
}

/// One value to write: key, value name (`None` for the default value),
/// data.
#[derive(Debug, Clone)]
pub struct RegistryWrite {
    pub key: String,
    pub value_name: Option<String>,
    pub data: RegistryData,
}

/// A value's data as plain values: text, or a number.
pub enum DataView {
    Text(Seq<char>),
    Dword(u32),
}

pub type WriteView = (Seq<char>, Option<Seq<char>>, DataView);

pub open spec fn write_view(w: RegistryWrite) -> WriteView {
    (
        w.key@,
        match w.value_name {
            Some(n) => Some(n@),
            None => None,
        },
        match w.data {
            RegistryData::Text(t) => DataView::Text(t@),
            RegistryData::Dword(d) => DataView::Dword(d),
        },
    )
}

pub open spec fn writes_view(v: Seq<RegistryWrite>) -> Seq<WriteView> {
    v.map_values(|w: RegistryWrite| write_view(w))
}

pub open spec fn quoted(exe: Seq<char>) -> Seq<char> {
    seq!['"'] + exe + seq!['"']
}

/// The uninstall record: name, version, publisher, location, the uninstall
/// commands (`"<exe>" --uninstall`, with `--yes` for the quiet one), the
/// icon, and the flags that hide "modify" and "repair".
pub open spec fn uninstall_entry_spec(exe: Seq<char>, base: Seq<char>, version: Seq<char>) -> Seq<WriteView> {
    let key = "Software\\Microsoft\\Windows\\CurrentVersion\\Uninstall\\"@ + APP_NAME@;
    seq![
        (key, Some("DisplayName"@), DataView::Text(APP_NAME@)),
        (key, Some("DisplayVersion"@), DataView::Text(version)),
        (key, Some("Publisher"@), DataView::Text("RedStrap"@)),
        (key, Some("InstallLocation"@), DataView::Text(base)),
        (key, Some("UninstallString"@), DataView::Text(quoted(exe) + " --uninstall"@)),
        (key, Some("QuietUninstallString"@), DataView::Text(quoted(exe) + " --uninstall --yes"@)),
        (key, Some("DisplayIcon"@), DataView::Text(exe + ",0"@)),
        (key, Some("NoModify"@), DataView::Dword(1)),
        (key, Some("NoRepair"@), DataView::Dword(1)),
    ]
}

fn text_write(key: &str, name: Option<&str>, data: String) -> (r: RegistryWrite)
    ensures
        write_view(r) == (
            key@,
            match name {
                Some(n) => Some(n@),
                None => None::<Seq<char>>,
            },
            DataView::Text(data@),
        ),
{
    RegistryWrite {
        key: str_to_string(key),
        value_name: match name {
            Some(n) => Some(str_to_string(n)),
            None => None,
        },
        data: RegistryData::Text(data),
    }
}

fn quoted_exec(exe: &str) -> (r: String)
    ensures
        r@ == quoted(exe@),
{
    let mut s = String::new();
    push_char(&mut s, '"');
    push_str(&mut s, exe);
    push_char(&mut s, '"');
    s
}

/// The values of the uninstall record for an install of `version` at
/// `base` whose launcher is `exe`.
pub fn uninstall_entry(exe: &str, base: &str, version: &str) -> (r: Vec<RegistryWrite>)
    ensures
        writes_view(r@) == uninstall_entry_spec(exe@, base@, version@),
{
    let key = uninstall_key();
    let k = key.as_str();
    let mut uninstall = quoted_exec(exe);
    push_str(&mut uninstall, " --uninstall");
    let mut quiet = quoted_exec(exe);
    push_str(&mut quiet, " --uninstall --yes");
    let mut icon = str_to_string(exe);
    push_str(&mut icon, ",0");
    let out = vec![
        text_write(k, Some("DisplayName"), str_to_string(APP_NAME)),
        text_write(k, Some("DisplayVersion"), str_to_string(version)),
        text_write(k, Some("Publisher"), str_to_string("RedStrap")),
        text_write(k, Some("InstallLocation"), str_to_string(base)),
        text_write(k, Some("UninstallString"), uninstall),
        text_write(k, Some("QuietUninstallString"), quiet),
        text_write(k, Some("DisplayIcon"), icon),
        RegistryWrite {
            key: str_to_string(k),
            value_name: Some(str_to_string("NoModify")),
            data: RegistryData::Dword(1),
        },
        RegistryWrite {
            key: str_to_string(k),
            value_name: Some(str_to_string("NoRepair")),
            data: RegistryData::Dword(1),
        },
    ];
    assert(writes_view(out@) =~= uninstall_entry_spec(exe@, base@, version@));
    out
}

/// The URL protocols Red Strap answers, with their display labels.
pub fn protocols() -> (r: Vec<(&'static str, &'static str)>)
    ensures
        r@ == seq![
            ("roblox-player", "Roblox Player"),
            ("roblox", "Roblox"),
            ("roblox-studio", "Roblox Studio"),
            ("roblox-studio-auth", "Roblox Studio Auth"),
        ],
{
    vec![
        ("roblox-player", "Roblox Player"),
        ("roblox", "Roblox"),
        ("roblox-studio", "Roblox Studio"),
        ("roblox-studio-auth", "Roblox Studio Auth"),
    ]
}

/// The values registering one protocol to open with `exe`: its label
/// (`URL:<label>`), the empty `URL Protocol` marker, the icon, and the open
/// command `"<exe>" "%1"`.
pub open spec fn protocol_entries_spec(protocol: Seq<char>, label: Seq<char>, exe: Seq<char>) -> Seq<WriteView> {
    let key = "Software\\Classes\\"@ + protocol;
    seq![
        (key, None, DataView::Text("URL:"@ + label)),
        (key, Some("URL Protocol"@), DataView::Text(""@)),
        (key + "\\DefaultIcon"@, None, DataView::Text(exe + ",0"@)),
        (key + "\\shell\\open\\command"@, None, DataView::Text(quoted(exe) + " \"%1\""@)),
    ]
}

/// The values that make `protocol` open with `exe`.
pub fn protocol_entries(protocol: &str, label: &str, exe: &str) -> (r: Vec<RegistryWrite>)
    ensures
        writes_view(r@) == protocol_entries_spec(protocol@, label@, exe@),
{
    let key = protocol_key(protocol);
    let mut title = str_to_string("URL:");
    push_str(&mut title, label);
    let mut icon_key = str_to_string(key.as_str());
    push_str(&mut icon_key, "\\DefaultIcon");
    let mut icon = str_to_string(exe);
    push_str(&mut icon, ",0");
    let mut command_key = str_to_string(key.as_str());
    push_str(&mut command_key, "\\shell\\open\\command");
    let mut command = quoted_exec(exe);
    push_str(&mut command, " \"%1\"");
    let out = vec![
        text_write(key.as_str(), None, title),
        text_write(key.as_str(), Some("URL Protocol"), str_to_string("")),
        text_write(icon_key.as_str(), None, icon),
        text_write(command_key.as_str(), None, command),
    ];
    assert(writes_view(out@) =~= protocol_entries_spec(protocol@, label@, exe@));
    out
}

/// The batch script that deletes the install directory after the
/// uninstaller exits (Windows), then itself.
pub fn uninstall_script(base: &str) -> (r: String)
    ensures
        r@ == "@echo off\r\ntimeout /t 2 /nobreak >nul\r\nrmdir /s /q \""@ + base@
            + "\"\r\ndel \"%~f0\"\r\n"@,
{
    let mut s = str_to_string("@echo off\r\ntimeout /t 2 /nobreak >nul\r\nrmdir /s /q \"");
    push_str(&mut s, base);
    push_str(&mut s, "\"\r\ndel \"%~f0\"\r\n");
    s
}

} // verus!
