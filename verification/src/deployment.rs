//! Roblox deployment metadata: channels, download locations, and the
//! client-version record the deploy API returns.

use vstd::prelude::*;

use crate::consts::{BINARY_TYPE_PLAYER, DEFAULT_CHANNEL, LIVE_CHANNEL_ALIAS};
use crate::error::RedStrapError;
use crate::text::{
    chars_of, eq_ignore_case, eq_ignore_case_exec, push_chars, push_str, str_to_string,
    string_of, trim, trim_end_set, trim_end_set_vec, trim_str,
};

verus! {

/// Deploy information for one channel/binary pair.
#[derive(Debug, Clone)]
pub struct ClientVersion {
    pub version: String,
    pub version_guid: String,
    pub bootstrapper_version: String,
    /// `Last-Modified` of the package manifest, when requested.
    pub timestamp: Option<String>,
    /// True when this channel lags behind production.
    pub behind_default: bool,
}

/// `production` or its `live` alias, ignoring ASCII case.
pub open spec fn default_channel(channel: Seq<char>) -> bool {
    eq_ignore_case(channel, DEFAULT_CHANNEL@) || eq_ignore_case(channel, LIVE_CHANNEL_ALIAS@)
}

/// True for `production` (and its `live` alias), case-insensitive.
pub fn is_default_channel(channel: &str) -> (r: bool)
    ensures
        r == default_channel(channel@),
{
    let c = chars_of(channel);
    eq_ignore_case_exec(c.as_slice(), chars_of(DEFAULT_CHANNEL).as_slice())
        || eq_ignore_case_exec(c.as_slice(), chars_of(LIVE_CHANNEL_ALIAS).as_slice())
}

/// The URL `location` builds.
pub open spec fn location_spec(base_url: Seq<char>, channel: Seq<char>, resource: Seq<char>) -> Seq<char> {
    let base = trim_end_set(base_url, seq!['/']);
    if default_channel(channel) {
        base + resource
    } else {
        base + "/channel/common"@ + resource
    }
}

/// Build a download URL for a deployment resource on the chosen mirror:
/// trailing slashes of the mirror are dropped, and non-default channels
/// live under `/channel/common`.
pub fn location(base_url: &str, channel: &str, resource: &str) -> (r: String)
    ensures
        r@ == location_spec(base_url@, channel@, resource@),
{
    let slash: Vec<char> = vec!['/'];
    assert(slash@ =~= seq!['/']);
    let base = trim_end_set_vec(chars_of(base_url).as_slice(), slash.as_slice());
    let mut url = String::new();
    push_chars(&mut url, base.as_slice());
    if !is_default_channel(channel) {
        push_str(&mut url, "/channel/common");
    }
    push_str(&mut url, resource);
    url
}

// ---------------------------------------------------------------------------
// Mirrors
// ---------------------------------------------------------------------------

/// Expected body of the `versionStudio` connectivity probe: the version
/// hash of the last MFC Studio ever deployed, so it never changes.
pub const VERSION_STUDIO_HASH: &'static str = "version-012732894899482c";

/// The setup mirrors raced when connecting, each with the delay (in
/// milliseconds) before it starts: the primary first, the others a little
/// later, so a slow primary adds at most that delay.
pub fn base_urls() -> (r: Vec<(&'static str, u64)>)
    ensures
        r@.len() == 5,
        r@[0] == ("https://setup.rbxcdn.com", 0u64),
        r@[1] == ("https://setup-aws.rbxcdn.com", 2000u64),
        r@[2] == ("https://setup-ak.rbxcdn.com", 2000u64),
        r@[3] == ("https://roblox-setup.cachefly.net", 2000u64),
        r@[4] == ("https://s3.amazonaws.com/setup.roblox.com", 4000u64),
{
    vec![
        ("https://setup.rbxcdn.com", 0),
        ("https://setup-aws.rbxcdn.com", 2000),
        ("https://setup-ak.rbxcdn.com", 2000),
        ("https://roblox-setup.cachefly.net", 2000),
        ("https://s3.amazonaws.com/setup.roblox.com", 4000),
    ]
}

/// URL of a mirror's `versionStudio` probe.
pub fn probe_url(base: &str) -> (r: String)
    ensures
        r@ == base@ + "/versionStudio"@,
{
    let mut url = str_to_string(base);
    push_str(&mut url, "/versionStudio");
    url
}

/// Check a mirror's probe answer: healthy when the body, trimmed, is the
/// well-known hash.
pub fn check_probe_body(base: &str, body: &str) -> (r: Result<(), RedStrapError>)
    ensures
        r is Ok <==> trim(body@) == VERSION_STUDIO_HASH@,
        r matches Err(e) ==> e matches RedStrapError::Other(m) && m@ == "mirror "@ + base@
            + " returned unexpected versionStudio body"@,
{
    let t = trim_str(body);
    if crate::text::chars_eq_str(t.as_slice(), VERSION_STUDIO_HASH) {
        return Ok(());
    }
    let mut m = str_to_string("mirror ");
    push_str(&mut m, base);
    push_str(&mut m, " returned unexpected versionStudio body");
    Err(RedStrapError::Other(m))
}

/// The error when no mirror answered: the last failure seen, or a generic
/// one when there was none.
pub fn no_mirror(last_error: Option<RedStrapError>) -> (r: RedStrapError)
    ensures
        match last_error {
            Some(e) => r == e,
            None => r matches RedStrapError::Other(m) && m@ == "all setup mirrors failed"@,
        },
{
    match last_error {
        Some(e) => e,
        None => RedStrapError::Other(str_to_string("all setup mirrors failed")),
    }
}

// ---------------------------------------------------------------------------
// Client versions
// ---------------------------------------------------------------------------

/// Where the deploy API is asked about a channel: the channel actually
/// used, whether it is the default one, and the API path.
#[derive(Debug, Clone)]
pub struct VersionQuery {
    pub channel: String,
    pub is_default: bool,
    pub path: String,
}

/// The channel used for `channel`: trimmed, `production` when blank.
pub open spec fn effective_channel(channel: Seq<char>) -> Seq<char> {
    if trim(channel).len() == 0 { DEFAULT_CHANNEL@ } else { trim(channel) }
}

/// The deploy query for a channel/binary pair: default channels ask for
/// `/v2/client-version/<binary>`, others for
/// `/v2/client-version/<binary>/channel/<channel>`.
pub fn version_query(channel: &str, binary_type: &str) -> (r: VersionQuery)
    ensures
        r.channel@ == effective_channel(channel@),
        r.is_default == default_channel(effective_channel(channel@)),
        r.path@ == if r.is_default {
            "/v2/client-version/"@ + binary_type@
        } else {
            "/v2/client-version/"@ + binary_type@ + "/channel/"@ + effective_channel(channel@)
        },
{
    let t = trim_str(channel);
    let used = if t.len() == 0 { str_to_string(DEFAULT_CHANNEL) } else { string_of(t.as_slice()) };
    let is_default = is_default_channel(used.as_str());
    let mut path = str_to_string("/v2/client-version/");
    push_str(&mut path, binary_type);
    if !is_default {
        push_str(&mut path, "/channel/");
        push_str(&mut path, used.as_str());
    }
    VersionQuery { channel: used, is_default, path }
}

/// The two hosts asked in turn for a deploy path: the CDN, then the origin.
pub fn version_urls(domain: &str, path: &str) -> (r: (String, String))
    ensures
        r.0@ == "https://clientsettingscdn."@ + domain@ + path@,
        r.1@ == "https://clientsettings."@ + domain@ + path@,
{
    let mut cdn = str_to_string("https://clientsettingscdn.");
    push_str(&mut cdn, domain);
    push_str(&mut cdn, path);
    let mut origin = str_to_string("https://clientsettings.");
    push_str(&mut origin, domain);
    push_str(&mut origin, path);
    (cdn, origin)
}

/// A non-default channel answering 401, 403 or 404 is unknown or private.
pub fn channel_rejection(is_default: bool, status: u16, channel: &str) -> (r: Option<RedStrapError>)
    ensures
        (!is_default && (status == 401 || status == 403 || status == 404)) <==> r is Some,
        r matches Some(e) ==> e matches RedStrapError::InvalidChannel { channel: c, status: s }
            && c@ == channel@ && s == status,
{
    if !is_default && (status == 401 || status == 403 || status == 404) {
        Some(RedStrapError::InvalidChannel { channel: str_to_string(channel), status })
    } else {
        None
    }
}

/// The channel probed when asking whether `channel` is private
/// (`production` is probed as `live`).
pub fn private_probe_url(domain: &str, channel: &str) -> (r: String)
    ensures
        r@ == "https://clientsettingscdn."@ + domain@ + "/v2/client-version/"@ + BINARY_TYPE_PLAYER@
            + "/channel/"@ + (if eq_ignore_case(channel@, "production"@) {
            "live"@
        } else {
            channel@
        }),
{
    let mut url = str_to_string("https://clientsettingscdn.");
    push_str(&mut url, domain);
    push_str(&mut url, "/v2/client-version/");
    push_str(&mut url, BINARY_TYPE_PLAYER);
    push_str(&mut url, "/channel/");
    let production = eq_ignore_case_exec(chars_of(channel).as_slice(), chars_of("production").as_slice());
    push_str(&mut url, if production { "live" } else { channel });
    url
}

/// Whether a probe status says the channel exists but is not public: a
/// success says no; 401, 403 and 404 say yes; anything else says no.
pub fn status_means_private(status: u16) -> (r: bool)
    ensures
        r == (!(200 <= status <= 299) && (status == 401 || status == 403 || status == 404)),
{
    if 200 <= status && status <= 299 {
        false
    } else {
        status == 401 || status == 403 || status == 404
    }
}

// ---------------------------------------------------------------------------
// Fast-flag allowlist
// ---------------------------------------------------------------------------

/// `str::to_lowercase`, Unicode's full lower-case mapping, named: its
/// tables take pages, and it depends on the text alone.
pub uninterp spec fn unicode_lower(s: Seq<char>) -> Seq<char>;

/// `str::to_lowercase`. The contract names the result.
#[verifier::external_body]
fn lowercase_text(s: &str) -> (r: String)
    ensures
        r@ == unicode_lower(s@),
{
    s.to_lowercase()
}

/// The client-settings path listing the flags an application honours:
/// `/v2/settings/application/<app>`, with `/bucket/<channel>` (lower-cased)
/// appended for any channel but `production` (ignoring ASCII case). The
/// hosts asked are those of [`version_urls`].
pub fn allowlist_path(app: &str, channel: &str) -> (r: String)
    ensures
        r@ == "/v2/settings/application/"@ + app@ + if eq_ignore_case(channel@, DEFAULT_CHANNEL@) {
            Seq::<char>::empty()
        } else {
            "/bucket/"@ + unicode_lower(channel@)
        },
{
    let mut path = str_to_string("/v2/settings/application/");
    push_str(&mut path, app);
    if !eq_ignore_case_exec(chars_of(channel).as_slice(), chars_of(DEFAULT_CHANNEL).as_slice()) {
        push_str(&mut path, "/bucket/");
        let lowered = lowercase_text(channel);
        push_str(&mut path, lowered.as_str());
    }
    path
}

} // verus!
