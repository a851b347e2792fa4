//! Settings of the server, with their defaults.
use vstd::prelude::*;

use crate::numbers::{parse_unsigned, parse_unsigned_spec};

verus! {

/// Settings of the server.
#[derive(Clone, Debug)]
pub struct Config {
    pub pexels_api_key: String,
    pub pixabay_api_key: String,
    pub downloads_dir: String,
    pub database_url: String,
    pub port: u16,
    pub youtube_cookies_browser: Option<String>,
}

/// The port listened on when none is set, or the set one is unreadable.
pub const DEFAULT_PORT: u16 = 8000;

/// The characters of `v`, or `default` when it is unset.
pub open spec fn or_default(v: Option<String>, default: Seq<char>) -> Seq<char> {
    match v {
        Some(s) => s@,
        None => default,
    }
}

/// The port that the text `v` sets: the text read as a `u16`, else 8000.
pub open spec fn port_spec(v: Option<String>) -> u16 {
    match v {
        Some(s) => match parse_unsigned_spec(s@, u16::MAX as nat) {
            Some(p) => p as u16,
            None => DEFAULT_PORT,
        },
        None => DEFAULT_PORT,
    }
}

impl Config {
    /// The settings that the environment variables `PEXELS_API_KEY`,
    /// `PIXABAY_API_KEY`, `DOWNLOADS_DIR`, `DATABASE_URL`, `PORT` and
    /// `YOUTUBE_COOKIES_BROWSER` give (`None`: unset): no API keys, the
    /// directory `downloads`, the database `sqlite://library.db` and port
    /// 8000 when unset; an unreadable port counts as unset.
    pub fn from_vars(
        pexels_api_key: Option<String>,
        pixabay_api_key: Option<String>,
        downloads_dir: Option<String>,
        database_url: Option<String>,
        port: Option<String>,
        youtube_cookies_browser: Option<String>,
    ) -> (r: Config)
        ensures
            r.pexels_api_key@ == or_default(pexels_api_key, Seq::<char>::empty()),
            r.pixabay_api_key@ == or_default(pixabay_api_key, Seq::<char>::empty()),
            r.downloads_dir@ == or_default(downloads_dir, "downloads"@),
            r.database_url@ == or_default(database_url, "sqlite://library.db"@),
            r.port == port_spec(port),
            r.youtube_cookies_browser == youtube_cookies_browser,
    {
        let port_num: u16 = match &port {
            Some(p) => match parse_unsigned(p.as_str(), 65535) {
                Some(v) => v as u16,
                None => DEFAULT_PORT,
            },
            None => DEFAULT_PORT,
        };
        Config {
            pexels_api_key: match pexels_api_key {
                Some(k) => k,
                None => String::new(),
            },
            pixabay_api_key: match pixabay_api_key {
                Some(k) => k,
                None => String::new(),
            },
            downloads_dir: match downloads_dir {
                Some(d) => d,
                None => "downloads".to_string(),
            },
            database_url: match database_url {
                Some(u) => u,
                None => "sqlite://library.db".to_string(),
            },
            port: port_num,
            youtube_cookies_browser,
        }
    }
}

/// Whether an API key is set: a source whose key is empty is not asked.
pub fn should_query(api_key: &str) -> (b: bool)
    ensures
        b == (api_key@.len() > 0),
{
    api_key.unicode_len() > 0
}


} // verus!
