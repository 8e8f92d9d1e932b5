//! OAuth settings, token expiry rules and the choice of credentials at
//! session start.

use vstd::prelude::*;
use crate::clock::unix_millis_now;
use crate::text::{chars_of, contains_chars, contains_seq};

verus! {

/// The Spotify client id used for the OAuth flow.
pub const KEYMASTER_CLIENT_ID: &'static str = "65b708073fc0480ea92a077233ca87bd";

/// Where the browser flow sends the user back.
pub const REDIRECT_URI: &'static str = "http://127.0.0.1:8898/login";

/// The OAuth scopes requested.
pub const SCOPES: [&'static str; 1] = ["streaming"];

/// A token is renewed this many seconds before it expires.
pub const REFRESH_THRESHOLD_SECS: u64 = 600;

/// The background refresher wakes up every this many seconds.
pub const REFRESH_POLL_INTERVAL_SECS: u64 = 300;

/// A token counts as expired this many seconds before its expiry time.
pub const EXPIRY_BUFFER_SECS: u64 = 300;

/// Stored token data with refresh capability.
#[derive(Debug)]
pub struct TokenData {
    pub access_token: String,
    pub refresh_token: String,
    /// Unix timestamp in seconds.
    pub expires_at: u64,
}

impl Clone for TokenData {
    fn clone(&self) -> (r: Self)
        ensures
            r == *self,
    {
        TokenData {
            access_token: self.access_token.clone(),
            refresh_token: self.refresh_token.clone(),
            expires_at: self.expires_at,
        }
    }
}

/// Which OAuth setting is missing.
#[derive(Debug)]
pub enum OAuthConfigError {
    EmptyClientId,
    EmptyRedirectUri,
    EmptyScopes,
}

/// Checks that the OAuth settings are all present; they are.
pub fn validate_oauth_config() -> (r: Result<(), OAuthConfigError>)
    ensures
        r is Ok,
{
    proof {
        reveal_strlit("65b708073fc0480ea92a077233ca87bd");
        reveal_strlit("http://127.0.0.1:8898/login");
        assert(KEYMASTER_CLIENT_ID@.len() > 0);
        assert(REDIRECT_URI@.len() > 0);
    }
    if KEYMASTER_CLIENT_ID.is_empty() {
        return Err(OAuthConfigError::EmptyClientId);
    }
    if REDIRECT_URI.is_empty() {
        return Err(OAuthConfigError::EmptyRedirectUri);
    }
    if SCOPES.len() == 0 {
        return Err(OAuthConfigError::EmptyScopes);
    }
    Ok(())
}

/// `expires_at - margin`, or 0 when that would be negative.
pub open spec fn minus_margin(expires_at: u64, margin: u64) -> int {
    if expires_at >= margin {
        expires_at - margin
    } else {
        0
    }
}

/// At time `now` a token expiring at `expires_at` is within `margin` seconds
/// of its expiry, or past it.
pub open spec fn due_at(now: u64, expires_at: u64, margin: u64) -> bool {
    now >= minus_margin(expires_at, margin)
}

/// A token that is due stays due as time goes on.
pub proof fn law_due_stays_due(now: u64, later: u64, expires_at: u64, margin: u64)
    requires
        due_at(now, expires_at, margin),
        now <= later,
    ensures
        due_at(later, expires_at, margin),
{
}

/// Whether, at time `now`, a token expiring at `expires_at` lies within
/// `margin` seconds of its expiry (or past it).
pub fn is_due(now: u64, expires_at: u64, margin: u64) -> (r: bool)
    ensures
        r == due_at(now, expires_at, margin),
{
    now >= expires_at.saturating_sub(margin)
}

/// The latest time, in whole seconds, that a 64-bit count of milliseconds
/// can express.
pub open spec fn latest_clock_secs() -> int {
    u64::MAX as int / 1000
}

/// Seconds since the Unix epoch by the system clock: its 64-bit millisecond
/// count divided by 1000, so never past [`latest_clock_secs`]. Which second
/// it is depends on the clock.
pub fn now_secs() -> (r: u64)
    ensures
        r <= latest_clock_secs(),
{
    unix_millis_now() / 1000
}

/// Whether the token must be treated as expired now: the due test with a
/// five-minute margin at the current clock reading `t`, some second the
/// clock can express. So a token expiring within five minutes of the epoch
/// always is, and one expiring later than five minutes past the last second
/// the clock can express never is.
pub fn is_token_expired(expires_at: u64) -> (r: bool)
    ensures
        exists|t: u64| t <= latest_clock_secs() && r == #[trigger] due_at(t, expires_at, EXPIRY_BUFFER_SECS),
        expires_at <= EXPIRY_BUFFER_SECS ==> r,
        expires_at > latest_clock_secs() + EXPIRY_BUFFER_SECS ==> !r,
{
    let now = now_secs();
    let r = is_due(now, expires_at, EXPIRY_BUFFER_SECS);
    assert(r == due_at(now, expires_at, EXPIRY_BUFFER_SECS));
    r
}

/// Whether the token should be renewed now: the due test with a ten-minute
/// margin at the current clock reading `t`, some second the clock can
/// express. So a token expiring within ten minutes of the epoch always
/// should be, and one expiring later than ten minutes past the last second
/// the clock can express never should be.
pub fn is_expiring_soon(expires_at: u64) -> (r: bool)
    ensures
        exists|t: u64| t <= latest_clock_secs() && r == #[trigger] due_at(t, expires_at, REFRESH_THRESHOLD_SECS),
        expires_at <= REFRESH_THRESHOLD_SECS ==> r,
        expires_at > latest_clock_secs() + REFRESH_THRESHOLD_SECS ==> !r,
{
    let now = now_secs();
    let r = is_due(now, expires_at, REFRESH_THRESHOLD_SECS);
    assert(r == due_at(now, expires_at, REFRESH_THRESHOLD_SECS));
    r
}

/// Where the credentials for a new session come from.
#[derive(PartialEq, Eq, Structural, Clone, Copy, Debug)]
pub enum CredentialPlan {
    /// Cached credentials, with a stored token that is not about to expire.
    Cached,
    /// Renew the stored token first; on failure use it as it is.
    RefreshStored,
    /// The stored token as it is.
    Stored,
    /// No stored token: run the browser OAuth flow.
    BrowserFlow,
}

/// The credential source: `token_expiring` is `None` without a stored token,
/// else whether that token is about to expire.
pub open spec fn plan_for(cache_has_credentials: bool, token_expiring: Option<bool>) -> CredentialPlan {
    match token_expiring {
        None => CredentialPlan::BrowserFlow,
        Some(true) => CredentialPlan::RefreshStored,
        Some(false) => if cache_has_credentials {
            CredentialPlan::Cached
        } else {
            CredentialPlan::Stored
        },
    }
}

/// Chooses where a new session's credentials come from.
pub fn credential_plan(cache_has_credentials: bool, token_expiring: Option<bool>) -> (r: CredentialPlan)
    ensures
        r == plan_for(cache_has_credentials, token_expiring),
{
    match token_expiring {
        None => CredentialPlan::BrowserFlow,
        Some(true) => CredentialPlan::RefreshStored,
        Some(false) => if cache_has_credentials {
            CredentialPlan::Cached
        } else {
            CredentialPlan::Stored
        },
    }
}

/// Where the older credential loader gets its credentials.
#[derive(PartialEq, Eq, Structural, Clone, Copy, Debug)]
pub enum TokenFilePlan {
    /// Credentials cached by the player library.
    CachedCredentials,
    /// Renew the expired stored token; on failure run the browser flow.
    RefreshOrBrowserFlow,
    /// The stored token as it is.
    StoredToken,
    /// No usable credentials: run the browser flow.
    BrowserFlow,
}

/// The older loader's choice: cached credentials first; else the stored
/// token (`token_expired` is `None` without one), renewed when expired.
pub open spec fn token_file_plan_for(cache_has_credentials: bool, token_expired: Option<bool>) -> TokenFilePlan {
    if cache_has_credentials {
        TokenFilePlan::CachedCredentials
    } else {
        match token_expired {
            Some(true) => TokenFilePlan::RefreshOrBrowserFlow,
            Some(false) => TokenFilePlan::StoredToken,
            None => TokenFilePlan::BrowserFlow,
        }
    }
}

/// Chooses where the older credential loader gets its credentials.
pub fn token_file_plan(cache_has_credentials: bool, token_expired: Option<bool>) -> (r: TokenFilePlan)
    ensures
        r == token_file_plan_for(cache_has_credentials, token_expired),
{
    if cache_has_credentials {
        TokenFilePlan::CachedCredentials
    } else {
        match token_expired {
            Some(true) => TokenFilePlan::RefreshOrBrowserFlow,
            Some(false) => TokenFilePlan::StoredToken,
            None => TokenFilePlan::BrowserFlow,
        }
    }
}

/// Whether a failed session start calls for dropping the stored token and
/// authenticating again: its message mentions `Bad credentials`.
pub fn is_bad_credentials(error_msg: &str) -> (r: bool)
    ensures
        r == contains_seq(error_msg@, "Bad credentials"@),
{
    contains_chars(&chars_of(error_msg), &chars_of("Bad credentials"))
}

/// Whether the background refresher renews a token expiring at `expires_at`
/// when it wakes at `now`: the token expires within ten minutes.
pub fn needs_background_refresh(now: u64, expires_at: u64) -> (r: bool)
    requires
        now + REFRESH_THRESHOLD_SECS <= u64::MAX,
    ensures
        r == (expires_at <= now + REFRESH_THRESHOLD_SECS),
{
    expires_at <= now + REFRESH_THRESHOLD_SECS
}

} // verus!
