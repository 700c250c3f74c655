use session_auth::codec::{build_session_cookie, SessionCodec};
use session_auth::constants::{ACCESS_COOKIE_EXPIRE_TIME, ACCESS_TOKEN_EXPIRE_TIME,
    REFRESH_TOKEN_EXPIRE_TIME};
use session_auth::env::{backend_port_from, parse_port, DEFAULT_PORT};
use session_auth::errors::ApiError;
use session_auth::expiry::{effective_lifetime, session_expiry};
use session_auth::logger::{basename, Level, Logger};
use session_auth::urls::{get_login_url, google_callback_url};

#[test]
fn cookie_round_trip() {
    let codec = SessionCodec::generate();
    let sealed = codec.encode("session-handle-value");
    assert_ne!(sealed, "session-handle-value");
    assert_eq!(codec.decode(&sealed), Some("session-handle-value".to_string()));
    assert_eq!(codec.encode_decode_round_trip("another"), Some("another".to_string()));
}

#[test]
fn cookie_tamper_is_absence() {
    let codec = SessionCodec::generate();
    let sealed = codec.encode("secret-handle");
    assert!(codec.decode(&sealed).is_some());
    let mut bytes = sealed.clone().into_bytes();
    bytes[0] ^= 1;
    let mutated = String::from_utf8(bytes).unwrap();
    assert_ne!(mutated, sealed);
    assert_eq!(codec.decode(&mutated), None);
}

#[test]
fn cookie_from_another_key_is_absence() {
    let sealing = SessionCodec::generate();
    let other = SessionCodec::generate();
    let sealed = sealing.encode("secret-handle");
    assert_eq!(other.decode(&sealed), None);
}

#[test]
fn cookie_garbage_is_absence() {
    let codec = SessionCodec::generate();
    assert_eq!(codec.decode(""), None);
    assert_eq!(codec.decode("not a sealed value"), None);
    assert_eq!(codec.decode_opt(None), None);
}

#[test]
fn master_key_must_be_full_length() {
    assert!(SessionCodec::from_master_key(vec![7u8; 64]).is_some());
    assert!(SessionCodec::from_master_key(vec![7u8; 63]).is_none());
    assert!(SessionCodec::from_master_key(vec![7u8; 65]).is_none());
    assert!(SessionCodec::from_master_key(Vec::new()).is_none());
}

#[test]
fn externally_supplied_key_round_trips() {
    let codec = SessionCodec::from_master_key(vec![42u8; 64]).unwrap();
    let twin = SessionCodec::from_master_key(vec![42u8; 64]).unwrap();
    let sealed = codec.encode("handle");
    assert_eq!(twin.decode(&sealed), Some("handle".to_string()));
}

#[test]
fn session_cookie_attributes() {
    let codec = SessionCodec::generate();
    let cookie = build_session_cookie(&codec, "tok", "example.test".to_string(), 3600);
    assert_eq!(cookie.name, "sid");
    assert_eq!(cookie.domain, "example.test");
    assert_eq!(cookie.path, "/");
    assert!(cookie.secure);
    assert!(cookie.http_only);
    assert_eq!(cookie.max_age_seconds, 3600);
    assert_eq!(codec.decode(&cookie.value), Some("tok".to_string()));
}

#[test]
fn port_parsing() {
    assert_eq!(parse_port("3000"), Some(3000));
    assert_eq!(parse_port("65535"), Some(65535));
    assert_eq!(parse_port("0"), Some(0));
    assert_eq!(parse_port(""), None);
    assert_eq!(parse_port("80a"), None);
    assert_eq!(parse_port("-1"), None);
    assert_eq!(parse_port("65536"), None);
    assert_eq!(parse_port("99999999999999999999"), None);
}

#[test]
fn backend_port_defaults_when_unset() {
    assert_eq!(backend_port_from(None), Some(DEFAULT_PORT));
    assert_eq!(DEFAULT_PORT, 3000);
    let configured = "8080".to_string();
    assert_eq!(backend_port_from(Some(&configured)), Some(8080));
    let bad = "eighty".to_string();
    assert_eq!(backend_port_from(Some(&bad)), None);
}

#[test]
fn login_url_is_exact() {
    let url = get_login_url("my-client-id", "https://example.test");
    assert_eq!(url,
        "https://accounts.google.com/o/oauth2/v2/auth?access_type=offline&prompt=consent&scope=openid%20profile%20email&client_id=my-client-id&response_type=code&redirect_uri=https://example.test/auth/google_callback");
}

#[test]
fn callback_url_is_exact() {
    assert_eq!(google_callback_url("https://example.test"),
        "https://example.test/auth/google_callback");
}

#[test]
fn logger_gates_by_severity() {
    let logger = Logger;
    assert!(logger.enabled(Level::Error));
    assert!(logger.enabled(Level::Warn));
    assert!(logger.enabled(Level::Info));
    assert!(!logger.enabled(Level::Debug));
    assert!(!logger.enabled(Level::Trace));
}

#[test]
fn log_lines_show_the_base_file_name() {
    let logger = Logger;
    let file = "src/routes/oauth.rs".to_string();
    assert_eq!(logger.format_record(Level::Info, Some(&file), "hello"),
        "[INFO] [oauth.rs] - hello");
    assert_eq!(logger.format_record(Level::Error, None, "boom"), "[ERROR] [unknown] - boom");
    let bare = "main.rs".to_string();
    assert_eq!(logger.format_record(Level::Warn, Some(&bare), "x"), "[WARN] [main.rs] - x");
}

#[test]
fn basename_handles_separators() {
    assert_eq!(basename("a/b/c.rs"), "c.rs");
    assert_eq!(basename("c.rs"), "c.rs");
    assert_eq!(basename("a/b/"), "");
    assert_eq!(basename(""), "");
}

#[test]
fn error_status_codes() {
    assert_eq!(ApiError::Unauthorized.status_code(), 401);
    assert_eq!(ApiError::UpstreamAuthError.status_code(), 401);
    assert_eq!(ApiError::StoreError.status_code(), 500);
    assert_eq!(ApiError::MissingExpiry.status_code(), 500);
}

#[test]
fn lifetimes_are_capped() {
    assert_eq!(effective_lifetime(3600, 1800), 1800);
    assert_eq!(effective_lifetime(600, 1800), 600);
    assert_eq!(effective_lifetime(1800, 1800), 1800);
    assert_eq!(session_expiry(1000, 3600, 1800), 2800);
    assert_eq!(session_expiry(1000, 600, 1800), 1600);
}

#[test]
fn configured_constants() {
    assert_eq!(ACCESS_TOKEN_EXPIRE_TIME, 3600);
    assert_eq!(ACCESS_COOKIE_EXPIRE_TIME, 3600);
    assert_eq!(REFRESH_TOKEN_EXPIRE_TIME, 604800);
}
