//! Application settings with their defaults, and command-line arguments.

use vstd::prelude::*;
use crate::text::{owned, parsed_integer};
use crate::paths::{joined, path_join};

verus! {

/// Application configuration.
#[derive(Debug)]
pub struct Config {
    /// OAuth client id for Spotify authentication.
    pub oauth_client_id: String,
    /// OAuth redirect URI.
    pub redirect_uri: String,
    /// Base music directory; `None` means the default location.
    pub music_dir: Option<String>,
    /// Delay between track streaming operations, in milliseconds.
    pub track_delay_ms: u64,
    /// Maximum number of retry attempts for streaming.
    pub max_retries: u32,
    /// Base delay between retries, in milliseconds.
    pub retry_delay_ms: u64,
    /// Network operation timeout, in seconds.
    pub network_timeout_secs: u64,
}

/// The music directory used when none is configured: `Music` in the home
/// directory `home`.
pub open spec fn default_music_dir(home: Seq<char>) -> Seq<char> {
    joined(home, "Music"@)
}

impl Default for Config {
    fn default() -> (c: Self)
        ensures
            c.oauth_client_id@ == "65b708073fc0480ea92a077233ca87bd"@,
            c.redirect_uri@ == "http://127.0.0.1:8898/login"@,
            c.music_dir is None,
            c.track_delay_ms == 200,
            c.max_retries == 5,
            c.retry_delay_ms == 1000,
            c.network_timeout_secs == 30,
    {
        Config {
            oauth_client_id: owned("65b708073fc0480ea92a077233ca87bd"),
            redirect_uri: owned("http://127.0.0.1:8898/login"),
            music_dir: None,
            track_delay_ms: 200,
            max_retries: 5,
            retry_delay_ms: 1000,
            network_timeout_secs: 30,
        }
    }
}

impl Clone for Config {
    fn clone(&self) -> (c: Self)
        ensures
            c == *self,
    {
        Config {
            oauth_client_id: self.oauth_client_id.clone(),
            redirect_uri: self.redirect_uri.clone(),
            music_dir: match &self.music_dir {
                Some(d) => Some(d.clone()),
                None => None,
            },
            track_delay_ms: self.track_delay_ms,
            max_retries: self.max_retries,
            retry_delay_ms: self.retry_delay_ms,
            network_timeout_secs: self.network_timeout_secs,
        }
    }
}

impl Config {
    /// The music directory: the configured one, or `~/Music`, that is
    /// `Music` in the user's home directory `home_dir`.
    pub fn get_music_dir(&self, home_dir: &str) -> (r: String)
        ensures
            r@ == (match self.music_dir {
                Some(d) => d@,
                None => default_music_dir(home_dir@),
            }),
    {
        match &self.music_dir {
            Some(d) => d.clone(),
            None => path_join(home_dir, "Music"),
        }
    }
}

/// What std's `str::parse::<u64>` gives for `s`: the integer it spells,
/// when that fits in a `u64` (no `-` sign is accepted).
pub open spec fn parsed_u64(s: Seq<char>) -> Option<u64> {
    match parsed_integer(s, false) {
        Some(v) => if 0 <= v <= u64::MAX { Some(v as u64) } else { None },
        None => None,
    }
}

/// `s.parse::<u64>()`, `None` when it fails. Claimed: the result is
/// `parsed_u64(s)`, as std documents integer parsing.
#[verifier::external_body]
fn parse_u64(s: &str) -> (r: Option<u64>)
    ensures
        r == parsed_u64(s@),
{
    s.parse::<u64>().ok()
}

/// What std's `str::parse::<u32>` gives for `s`: the integer it spells,
/// when that fits in a `u32` (no `-` sign is accepted).
pub open spec fn parsed_u32(s: Seq<char>) -> Option<u32> {
    match parsed_integer(s, false) {
        Some(v) => if 0 <= v <= u32::MAX { Some(v as u32) } else { None },
        None => None,
    }
}

/// `s.parse::<u32>()`, `None` when it fails. Claimed: the result is
/// `parsed_u32(s)`, as std documents integer parsing.
#[verifier::external_body]
fn parse_u32(s: &str) -> (r: Option<u32>)
    ensures
        r == parsed_u32(s@),
{
    s.parse::<u32>().ok()
}

/// The environment variables the configuration reads, as found.
#[derive(Debug)]
pub struct EnvValues {
    /// `SPOTIFY_CLIENT_ID`
    pub client_id: Option<String>,
    /// `SPOTIFY_REDIRECT_URI`
    pub redirect_uri: Option<String>,
    /// `MUSIC_DIR`
    pub music_dir: Option<String>,
    /// `TRACK_DELAY_MS`
    pub track_delay_ms: Option<String>,
    /// `MAX_RETRIES`
    pub max_retries: Option<String>,
    /// `RETRY_DELAY_MS`
    pub retry_delay_ms: Option<String>,
    /// `NETWORK_TIMEOUT_SECS`
    pub network_timeout_secs: Option<String>,
}

/// A numeric setting: the variable's value when it parses, else the
/// default.
pub open spec fn numeric_u64(v: Option<String>, default: u64) -> u64 {
    match v {
        Some(s) => match parsed_u64(s@) {
            Some(n) => n,
            None => default,
        },
        None => default,
    }
}

/// A numeric `u32` setting: the variable's value when it parses, else the
/// default.
pub open spec fn numeric_u32(v: Option<String>, default: u32) -> u32 {
    match v {
        Some(s) => match parsed_u32(s@) {
            Some(n) => n,
            None => default,
        },
        None => default,
    }
}

/// A text setting: the variable's value when set, else the default.
pub open spec fn text_or(v: Option<String>, default: Seq<char>) -> Seq<char> {
    match v {
        Some(s) => s@,
        None => default,
    }
}

fn u64_or(v: &Option<String>, default: u64) -> (r: u64)
    ensures
        r == numeric_u64(*v, default),
{
    match v {
        Some(s) => match parse_u64(s.as_str()) {
            Some(n) => n,
            None => default,
        },
        None => default,
    }
}

impl Config {
    /// The configuration from the environment: each variable that is set
    /// replaces its default; numeric variables only when they parse.
    pub fn from_env_values(env: &EnvValues) -> (c: Config)
        ensures
            c.oauth_client_id@ == text_or(env.client_id, "65b708073fc0480ea92a077233ca87bd"@),
            c.redirect_uri@ == text_or(env.redirect_uri, "http://127.0.0.1:8898/login"@),
            c.music_dir == env.music_dir,
            c.track_delay_ms == numeric_u64(env.track_delay_ms, 200),
            c.max_retries == numeric_u32(env.max_retries, 5),
            c.retry_delay_ms == numeric_u64(env.retry_delay_ms, 1000),
            c.network_timeout_secs == numeric_u64(env.network_timeout_secs, 30),
    {
        let mut c = Config::default();
        if let Some(id) = &env.client_id {
            c.oauth_client_id = id.clone();
        }
        if let Some(r) = &env.redirect_uri {
            c.redirect_uri = r.clone();
        }
        if let Some(d) = &env.music_dir {
            c.music_dir = Some(d.clone());
        }
        c.track_delay_ms = u64_or(&env.track_delay_ms, c.track_delay_ms);
        c.max_retries = match &env.max_retries {
            Some(s) => match parse_u32(s.as_str()) {
                Some(n) => n,
                None => c.max_retries,
            },
            None => c.max_retries,
        };
        c.retry_delay_ms = u64_or(&env.retry_delay_ms, c.retry_delay_ms);
        c.network_timeout_secs = u64_or(&env.network_timeout_secs, c.network_timeout_secs);
        c
    }
}

/// Where the URIs to process come from.
#[derive(Debug)]
pub enum InputSource {
    /// One URI given on the command line.
    SingleUri(String),
    /// A file listing URIs, one per line.
    File(String),
}

/// Why the command line was refused.
#[derive(Debug)]
pub enum ArgsError {
    /// `--file` given twice, or after a URI.
    FileAndUri,
    /// `--file` as the last argument.
    MissingFilePath,
    /// An argument after the input source was already chosen.
    Unexpected { arg: String },
    /// No argument at all besides the program name.
    NoInput,
}

/// The state of the argument scan: the input chosen so far, or the error
/// that ended it.
pub enum ArgScan {
    Going(Option<InputSource>),
    Failed(ArgsError),
}

/// Scans `args[i..]` (the program name is `args[0]`) with `chosen` picked so
/// far.
pub open spec fn scan_args(args: Seq<String>, i: int, chosen: Option<InputSource>) -> ArgScan
    decreases args.len() - i,
{
    if i >= args.len() || i < 1 {
        ArgScan::Going(chosen)
    } else if args[i]@ == "--file"@ {
        if chosen is Some {
            ArgScan::Failed(ArgsError::FileAndUri)
        } else if i + 1 >= args.len() {
            ArgScan::Failed(ArgsError::MissingFilePath)
        } else {
            scan_args(args, i + 2, Some(InputSource::File(args[i + 1])))
        }
    } else if chosen is None {
        scan_args(args, i + 1, Some(InputSource::SingleUri(args[i])))
    } else {
        ArgScan::Failed(ArgsError::Unexpected { arg: args[i] })
    }
}

/// What the command line asks for.
pub open spec fn args_result(args: Seq<String>) -> Result<InputSource, ArgsError> {
    match scan_args(args, 1, None) {
        ArgScan::Going(Some(src)) => Ok(src),
        ArgScan::Going(None) => Err(ArgsError::NoInput),
        ArgScan::Failed(e) => Err(e),
    }
}

/// Reads the command line: one Spotify URI, or `--file <path>`.
pub fn validate_args(args: &Vec<String>) -> (r: Result<InputSource, ArgsError>)
    ensures
        r == args_result(args@),
{
    let mut chosen: Option<InputSource> = None;
    let mut i: usize = 1;
    proof {
        reveal_strlit("--file");
    }
    while i < args.len()
        invariant
            1 <= i,
            scan_args(args@, 1, None) == scan_args(args@, i as int, chosen),
        decreases args.len() - i,
    {
        if args[i] == String::from_str("--file") {
            if chosen.is_some() {
                return Err(ArgsError::FileAndUri);
            }
            if i + 1 >= args.len() {
                return Err(ArgsError::MissingFilePath);
            }
            chosen = Some(InputSource::File(args[i + 1].clone()));
            i = i + 2;
        } else if chosen.is_none() {
            chosen = Some(InputSource::SingleUri(args[i].clone()));
            i = i + 1;
        } else {
            return Err(ArgsError::Unexpected { arg: args[i].clone() });
        }
    }
    match chosen {
        Some(src) => Ok(src),
        None => Err(ArgsError::NoInput),
    }
}

} // verus!
