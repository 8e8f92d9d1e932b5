use fetching_core::auth::{
    credential_plan, is_bad_credentials, is_due, is_expiring_soon, is_token_expired,
    needs_background_refresh, now_secs, validate_oauth_config, CredentialPlan, TokenData,
    REDIRECT_URI, SCOPES,
};
use std::time::{SystemTime, UNIX_EPOCH};

#[test]
fn test_validate_oauth_config() {
    assert!(validate_oauth_config().is_ok());
}

#[test]
fn test_redirect_uri_format() {
    assert!(REDIRECT_URI.starts_with("http://") || REDIRECT_URI.starts_with("https://"));
    assert!(REDIRECT_URI.contains("127.0.0.1") || REDIRECT_URI.contains("localhost"));
}

#[test]
fn test_scopes_contains_streaming() {
    assert!(SCOPES.contains(&"streaming"));
}

#[test]
fn test_is_token_expired() {
    let past = SystemTime::now()
        .duration_since(UNIX_EPOCH)
        .unwrap()
        .as_secs()
        .saturating_sub(3600);
    assert!(is_token_expired(past));

    let future = SystemTime::now()
        .duration_since(UNIX_EPOCH)
        .unwrap()
        .as_secs()
        + 3600;
    assert!(!is_token_expired(future));

    let soon = SystemTime::now()
        .duration_since(UNIX_EPOCH)
        .unwrap()
        .as_secs()
        + 240;
    assert!(is_token_expired(soon));
}

fn token_expiring_in(secs: u64) -> TokenData {
    TokenData {
        access_token: "acc".to_string(),
        refresh_token: "ref".to_string(),
        expires_at: now_secs() + secs,
    }
}

#[test]
fn should_report_expired_when_token_is_in_the_past() {
    let token = token_expiring_in(0).expires_at.saturating_sub(3600);
    assert!(is_expiring_soon(token));
}

#[test]
fn should_report_expiring_when_token_is_within_threshold() {
    let token = token_expiring_in(240);
    assert!(is_expiring_soon(token.expires_at));
}

#[test]
fn should_not_report_expiring_when_token_has_ample_time_remaining() {
    let token = token_expiring_in(3600);
    assert!(!is_expiring_soon(token.expires_at));
}

#[test]
fn due_boundaries_are_exact() {
    assert!(is_due(1000, 1300, 300));
    assert!(!is_due(999, 1300, 300));
    assert!(is_due(0, 200, 300));
}

#[test]
fn credential_plan_covers_each_case() {
    assert_eq!(credential_plan(true, Some(false)), CredentialPlan::Cached);
    assert_eq!(credential_plan(false, Some(false)), CredentialPlan::Stored);
    assert_eq!(credential_plan(true, Some(true)), CredentialPlan::RefreshStored);
    assert_eq!(credential_plan(true, None), CredentialPlan::BrowserFlow);
}

#[test]
fn bad_credentials_and_background_refresh() {
    assert!(is_bad_credentials("Login failed: Bad credentials"));
    assert!(!is_bad_credentials("timeout"));
    assert!(needs_background_refresh(1000, 1600));
    assert!(!needs_background_refresh(1000, 1601));
}

#[test]
fn clock_bounds_decide_far_expiries() {
    assert!(now_secs() <= u64::MAX / 1000);
    assert!(is_token_expired(0));
    assert!(is_expiring_soon(0));
    assert!(!is_token_expired(u64::MAX));
    assert!(!is_expiring_soon(u64::MAX));
}
