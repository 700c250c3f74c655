use session_auth::errors::ApiError;
use session_auth::login::{complete_login, OpenIdProfile, TokenExchangeResponse};
use session_auth::refresh::{apply_refresh, check_refresh, renew_and_extract, RefreshDecision,
    TokenRefreshResponse};
use session_auth::session::{extract_profile, logout};
use session_auth::store::CredentialStore;

fn provider_token(access: &str, refresh: Option<&str>, expires_in: Option<u64>)
    -> TokenExchangeResponse {
    TokenExchangeResponse {
        access_token: access.to_string(),
        refresh_token: refresh.map(|r| r.to_string()),
        expires_in,
    }
}

fn profile(email: &str, name: &str) -> OpenIdProfile {
    OpenIdProfile { email: email.to_string(), name: name.to_string() }
}

#[test]
fn fresh_store_accepts_provisioning() {
    let store = CredentialStore::new();
    assert!(store.can_provision());
}

#[test]
fn login_caps_session_lifetime() {
    let mut store = CredentialStore::new();
    let token = provider_token("tok-a", Some("ref-a"), Some(3600));
    let out = complete_login(&mut store, &token, &profile("a@example.test", "Ada"), 1, 1000, 1800,
        604800).unwrap();
    assert_eq!(out.session_expires_at, 1000 + 1800);
    assert_ne!(out.session_expires_at, 1000 + 3600);
    let session = store.find_session_by_handle(&"tok-a".to_string()).unwrap();
    assert_eq!(session.expires_at, 2800);
}

#[test]
fn login_uses_provider_lifetime_below_ceiling() {
    let mut store = CredentialStore::new();
    let token = provider_token("tok-b", Some("ref-b"), Some(600));
    let out = complete_login(&mut store, &token, &profile("b@example.test", "Bea"), 2, 1000, 1800,
        604800).unwrap();
    assert_eq!(out.session_expires_at, 1600);
}

#[test]
fn login_without_refresh_token_is_not_renewable() {
    let mut store = CredentialStore::new();
    let token = provider_token("tok-c", None, Some(60));
    let out = complete_login(&mut store, &token, &profile("c@example.test", "Cy"), 3, 0, 1800,
        604800).unwrap();
    assert!(!out.renewable);
    assert!(store.find_refresh_token_by_user(out.user_id).is_none());
}

#[test]
fn login_with_refresh_token_stores_it() {
    let mut store = CredentialStore::new();
    let token = provider_token("tok-d", Some("ref-d"), Some(60));
    let out = complete_login(&mut store, &token, &profile("d@example.test", "Di"), 4, 100, 1800,
        604800).unwrap();
    assert!(out.renewable);
    let row = store.find_refresh_token_by_user(out.user_id).unwrap();
    assert_eq!(row.refresh_token, "ref-d");
    assert_eq!(row.expires_at, 100 + 604800);
}

#[test]
fn login_missing_expiry_is_rejected_without_writes() {
    let mut store = CredentialStore::new();
    let token = provider_token("tok-e", Some("ref-e"), None);
    let err = complete_login(&mut store, &token, &profile("e@example.test", "Ev"), 5, 0, 1800,
        604800).unwrap_err();
    assert_eq!(err, ApiError::MissingExpiry);
    assert!(store.find_session_by_handle(&"tok-e".to_string()).is_none());
}

#[test]
fn login_twice_keeps_one_user_and_replaces_session() {
    let mut store = CredentialStore::new();
    let first = complete_login(&mut store, &provider_token("tok-f1", Some("ref-f1"), Some(60)),
        &profile("f@example.test", "Fi"), 6, 0, 1800, 604800).unwrap();
    let second = complete_login(&mut store, &provider_token("tok-f2", Some("ref-f2"), Some(60)),
        &profile("f@example.test", "Fi"), 7, 10, 1800, 604800).unwrap();
    assert_eq!(first.user_id, second.user_id);
    assert!(store.find_session_by_handle(&"tok-f1".to_string()).is_none());
    assert!(store.find_session_by_handle(&"tok-f2".to_string()).is_some());
}

#[test]
fn extractor_returns_the_owning_profile() {
    let mut store = CredentialStore::new();
    complete_login(&mut store, &provider_token("tok-g", None, Some(60)),
        &profile("g@example.test", "Gil"), 8, 0, 1800, 604800).unwrap();
    complete_login(&mut store, &provider_token("tok-h", None, Some(60)),
        &profile("h@example.test", "Hal"), 9, 0, 1800, 604800).unwrap();
    let p1 = extract_profile(&store, Some(&"tok-g".to_string())).unwrap();
    assert_eq!(p1.email, "g@example.test");
    assert_eq!(p1.name, "Gil");
    let p2 = extract_profile(&store, Some(&"tok-h".to_string())).unwrap();
    assert_eq!(p2.email, "h@example.test");
    assert_ne!(p1.id, p2.id);
}

#[test]
fn extractor_rejects_missing_and_unknown_cookies() {
    let mut store = CredentialStore::new();
    complete_login(&mut store, &provider_token("tok-i", None, Some(60)),
        &profile("i@example.test", "Ina"), 10, 0, 1800, 604800).unwrap();
    assert_eq!(extract_profile(&store, None).unwrap_err(), ApiError::Unauthorized);
    assert_eq!(extract_profile(&store, Some(&"no-such-handle".to_string())).unwrap_err(),
        ApiError::Unauthorized);
}

#[test]
fn middleware_passes_through_without_cookie() {
    let store = CredentialStore::new();
    assert!(matches!(check_refresh(&store, None, 0), RefreshDecision::PassThrough));
}

#[test]
fn middleware_passes_through_unknown_handle() {
    let store = CredentialStore::new();
    let cookie = "stray".to_string();
    assert!(matches!(check_refresh(&store, Some(&cookie), 0), RefreshDecision::PassThrough));
}

#[test]
fn middleware_passes_through_live_session() {
    let mut store = CredentialStore::new();
    complete_login(&mut store, &provider_token("tok-j", Some("ref-j"), Some(600)),
        &profile("j@example.test", "Jo"), 11, 1000, 1800, 604800).unwrap();
    let cookie = "tok-j".to_string();
    assert!(matches!(check_refresh(&store, Some(&cookie), 1200), RefreshDecision::PassThrough));
}

#[test]
fn middleware_passes_through_expired_session_without_refresh_token() {
    let mut store = CredentialStore::new();
    complete_login(&mut store, &provider_token("tok-k", None, Some(600)),
        &profile("k@example.test", "Kim"), 12, 1000, 1800, 604800).unwrap();
    let cookie = "tok-k".to_string();
    assert!(matches!(check_refresh(&store, Some(&cookie), 2000), RefreshDecision::PassThrough));
}

#[test]
fn middleware_renews_expired_session() {
    let mut store = CredentialStore::new();
    let login = complete_login(&mut store, &provider_token("tok-l", Some("ref-l"), Some(600)),
        &profile("l@example.test", "Lee"), 13, 1000, 1800, 604800).unwrap();
    let now = 1601;
    let cookie = "tok-l".to_string();
    let decision = check_refresh(&store, Some(&cookie), now);
    let (session_row_id, user_id, refresh_secret) = match decision {
        RefreshDecision::Renew { session_row_id, user_id, refresh_secret } =>
            (session_row_id, user_id, refresh_secret),
        RefreshDecision::PassThrough => panic!("expected a renewal decision"),
    };
    assert_eq!(user_id, login.user_id);
    assert_eq!(refresh_secret, "ref-l");

    let response = TokenRefreshResponse {
        access_token: "tok-l-new".to_string(),
        expires_in: Some(3600),
    };
    let renewed = apply_refresh(&mut store, session_row_id, Some(&response), now, 1800).unwrap();
    assert_eq!(renewed.user_id, login.user_id);
    assert_eq!(renewed.handle, "tok-l-new");
    assert_eq!(renewed.expires_at, now + 1800);
    assert!(renewed.expires_at > now);

    // the old cookie no longer authenticates; the new one names the same user
    assert!(extract_profile(&store, Some(&cookie)).is_err());
    let p = extract_profile(&store, Some(&"tok-l-new".to_string())).unwrap();
    assert_eq!(p.email, "l@example.test");
}

#[test]
fn renewal_and_extraction_in_one_request() {
    let mut store = CredentialStore::new();
    let login = complete_login(&mut store, &provider_token("tok-m", Some("ref-m"), Some(600)),
        &profile("m@example.test", "Mo"), 14, 0, 1800, 604800).unwrap();
    let cookie = "tok-m".to_string();
    let decision = check_refresh(&store, Some(&cookie), 601);
    let session_row_id = match decision {
        RefreshDecision::Renew { session_row_id, .. } => session_row_id,
        RefreshDecision::PassThrough => panic!("expected a renewal decision"),
    };
    let response = TokenRefreshResponse {
        access_token: "tok-m-new".to_string(),
        expires_in: Some(900),
    };
    let p = renew_and_extract(&mut store, session_row_id, &response, 601, 1800).unwrap();
    assert_eq!(p.id, login.user_id);
    assert_eq!(p.email, "m@example.test");
}

#[test]
fn rejected_refresh_leaves_the_session_unchanged() {
    let mut store = CredentialStore::new();
    complete_login(&mut store, &provider_token("tok-n", Some("ref-n"), Some(600)),
        &profile("n@example.test", "Nat"), 15, 1000, 1800, 604800).unwrap();
    let cookie = "tok-n".to_string();
    let session_row_id = match check_refresh(&store, Some(&cookie), 2000) {
        RefreshDecision::Renew { session_row_id, .. } => session_row_id,
        RefreshDecision::PassThrough => panic!("expected a renewal decision"),
    };
    assert!(apply_refresh(&mut store, session_row_id, None, 2000, 1800).is_none());
    let row = store.find_session_by_handle(&cookie).unwrap();
    assert_eq!(row.expires_at, 1600);
    assert_eq!(row.session_id, "tok-n");
}

#[test]
fn refresh_without_lifetime_is_a_silent_no_op() {
    let mut store = CredentialStore::new();
    complete_login(&mut store, &provider_token("tok-o", Some("ref-o"), Some(600)),
        &profile("o@example.test", "Ole"), 16, 1000, 1800, 604800).unwrap();
    let cookie = "tok-o".to_string();
    let session_row_id = match check_refresh(&store, Some(&cookie), 2000) {
        RefreshDecision::Renew { session_row_id, .. } => session_row_id,
        RefreshDecision::PassThrough => panic!("expected a renewal decision"),
    };
    let response = TokenRefreshResponse { access_token: "tok-o-new".to_string(), expires_in: None };
    assert!(apply_refresh(&mut store, session_row_id, Some(&response), 2000, 1800).is_none());
    assert!(store.find_session_by_handle(&cookie).is_some());
    assert!(store.find_session_by_handle(&"tok-o-new".to_string()).is_none());
}

#[test]
fn logout_removes_session_and_refresh_token() {
    let mut store = CredentialStore::new();
    let login = complete_login(&mut store, &provider_token("tok-p", Some("ref-p"), Some(600)),
        &profile("p@example.test", "Pat"), 17, 0, 1800, 604800).unwrap();
    logout(&mut store, login.user_id);
    assert!(store.find_session_by_handle(&"tok-p".to_string()).is_none());
    assert!(store.find_refresh_token_by_user(login.user_id).is_none());
    assert_eq!(extract_profile(&store, Some(&"tok-p".to_string())).unwrap_err(),
        ApiError::Unauthorized);
}

#[test]
fn logout_leaves_other_users_alone() {
    let mut store = CredentialStore::new();
    let first = complete_login(&mut store, &provider_token("tok-q", Some("ref-q"), Some(600)),
        &profile("q@example.test", "Qun"), 18, 0, 1800, 604800).unwrap();
    complete_login(&mut store, &provider_token("tok-r", Some("ref-r"), Some(600)),
        &profile("r@example.test", "Ria"), 19, 0, 1800, 604800).unwrap();
    logout(&mut store, first.user_id);
    let p = extract_profile(&store, Some(&"tok-r".to_string())).unwrap();
    assert_eq!(p.email, "r@example.test");
}
