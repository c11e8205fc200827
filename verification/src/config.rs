//! The durable configuration the service reads at startup: storage-session
//! cookies, the open-platform credential triple, and web-facing settings.
//! Loading and persisting the file is the application's work; the shapes and
//! defaults are fixed here.

use vstd::prelude::*;

verus! {

/// Storage-session settings: the two session cookies, where transferred
/// files are saved, and the HTTP timeout.
#[derive(Debug, Clone)]
pub struct BaiduConfig {
    pub cookie_bduss: String,
    pub cookie_stoken: String,
    pub save_path: String,
    pub http_timeout_secs: u64,
}

/// The open-platform credential triple: a short-lived static token, the
/// long-lived refresh secret, and the client identity used to exchange it.
#[derive(Debug, Clone)]
pub struct OpenApiConfig {
    pub access_token: String,
    pub refresh_token: String,
    pub client_id: String,
    pub client_secret: String,
}

/// Web front-end settings: the access password and the volume size limit
/// for server-side archives.
#[derive(Debug, Clone)]
pub struct WebConfig {
    pub password: String,
    pub max_zip_size: u64,
}

/// The whole configuration document.
#[derive(Debug, Clone)]
pub struct Config {
    pub baidu: BaiduConfig,
    pub baidu_open: OpenApiConfig,
    pub web: WebConfig,
}

/// The directory transferred files land in when none is configured.
pub fn default_save_path() -> (r: String)
    ensures
        r@ == "/我的资源"@,
{
    String::from_str("/我的资源")
}

/// The HTTP timeout used when none is configured.
pub fn default_http_timeout_secs() -> (r: u64)
    ensures
        r == 30,
{
    30
}

impl Config {
    /// The user agent sent on app-style backend calls.
    pub fn app_ua() -> (r: &'static str)
        ensures
            r@ == "netdisk;2.2.51.6;netdisk;10.0.63;PC;android-android"@,
    {
        "netdisk;2.2.51.6;netdisk;10.0.63;PC;android-android"
    }

    /// The user agent sent on browser-style backend calls.
    pub fn browser_ua() -> (r: &'static str)
        ensures
            r@ == "Mozilla/5.0 (Windows NT 10.0; Win64; x64) AppleWebKit/537.36 (KHTML, like Gecko) Chrome/120.0.0.0 Safari/537.36"@,
    {
        "Mozilla/5.0 (Windows NT 10.0; Win64; x64) AppleWebKit/537.36 (KHTML, like Gecko) Chrome/120.0.0.0 Safari/537.36"
    }
}

/// Whether the two session cookies look complete enough to use: the first
/// at least 50 characters, the second at least 30.
pub fn cookies_usable(bduss: &str, stoken: &str) -> (r: bool)
    ensures
        r == (bduss@.len() >= 50 && stoken@.len() >= 30),
{
    bduss.unicode_len() >= 50 && stoken.unicode_len() >= 30
}

} // verus!
