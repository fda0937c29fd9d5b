use codex_profiles::relay::{
    has_non_empty_query_param, map_listener_status, map_transport_error,
    resolve_callback_url_with, validate_callback_url,
};

const VALID_LOCALHOST: &str = "http://localhost:1455/auth/callback?code=test-code&state=test-state";
const VALID_LOOPBACK: &str = "http://127.0.0.1:1455/auth/callback?state=test-state&code=test-code";

#[test]
fn resolve_callback_url_uses_url_arg() {
    let value = resolve_callback_url_with(Some(format!("  {VALID_LOCALHOST}  ")), false, || {
        Ok(String::new())
    })
    .unwrap();
    assert_eq!(value, VALID_LOCALHOST);
}

#[test]
fn resolve_callback_url_requires_url_when_non_interactive() {
    let err = resolve_callback_url_with(None, false, || Ok(String::new())).unwrap_err();
    assert_eq!(err, "Error: --url is required in non-interactive mode.");
}

#[test]
fn resolve_callback_url_reports_read_error() {
    let err = resolve_callback_url_with(None, true, || {
        Err("Error: failed to read callback URL: broken pipe".to_string())
    })
    .unwrap_err();
    assert_eq!(err, "Error: failed to read callback URL: broken pipe");
}

#[test]
fn resolve_callback_url_rejects_empty_input() {
    let err = resolve_callback_url_with(None, true, || Ok("   \n".to_string())).unwrap_err();
    assert_eq!(err, "Error: callback URL is empty.");
}

#[test]
fn validate_callback_url_accepts_localhost_url() {
    validate_callback_url(VALID_LOCALHOST).unwrap();
}

#[test]
fn validate_callback_url_accepts_loopback_url() {
    validate_callback_url(VALID_LOOPBACK).unwrap();
}

#[test]
fn validate_callback_url_rejects_fragment() {
    let err = validate_callback_url(&format!("{VALID_LOCALHOST}#frag")).unwrap_err();
    assert_eq!(err, "Error: callback URL must not include a fragment.");
}

#[test]
fn validate_callback_url_rejects_non_http_scheme() {
    let err = validate_callback_url("https://localhost:1455/auth/callback?code=a&state=b").unwrap_err();
    assert_eq!(err, "Error: callback URL must use http.");
}

#[test]
fn validate_callback_url_rejects_non_loopback_host() {
    let err = validate_callback_url("http://example.com:1455/auth/callback?code=a&state=b").unwrap_err();
    assert_eq!(err, "Error: callback URL host must be localhost or 127.0.0.1.");
}

#[test]
fn validate_callback_url_rejects_missing_port() {
    let err = validate_callback_url("http://localhost/auth/callback?code=a&state=b").unwrap_err();
    assert_eq!(err, "Error: callback URL must include an explicit port.");
}

#[test]
fn validate_callback_url_rejects_wrong_path() {
    let err = validate_callback_url("http://localhost:1455/callback?code=a&state=b").unwrap_err();
    assert_eq!(err, "Error: callback URL path must be /auth/callback.");
}

#[test]
fn validate_callback_url_rejects_missing_code() {
    let err = validate_callback_url("http://localhost:1455/auth/callback?state=b").unwrap_err();
    assert_eq!(err, "Error: callback URL must include a non-empty code query param.");
}

#[test]
fn validate_callback_url_rejects_empty_state() {
    let err = validate_callback_url("http://localhost:1455/auth/callback?code=a&state=").unwrap_err();
    assert_eq!(err, "Error: callback URL must include a non-empty state query param.");
}

#[test]
fn map_listener_status_accepts_2xx_and_3xx() {
    assert!(map_listener_status(204).is_ok());
    assert!(map_listener_status(302).is_ok());
}

#[test]
fn map_listener_status_preserves_4xx_and_5xx_status() {
    let client_err = map_listener_status(401).unwrap_err();
    assert!(client_err.contains("401"));
    assert!(client_err.contains("retry"));

    let server_err = map_listener_status(503).unwrap_err();
    assert!(server_err.contains("503"));
    assert!(server_err.contains("restart"));
}

#[test]
fn map_listener_status_flags_unexpected_codes() {
    assert_eq!(
        map_listener_status(101).unwrap_err(),
        "Error: local login listener returned unexpected http status: 101."
    );
}

#[test]
fn map_transport_error_includes_listener_hint() {
    let err = map_transport_error(&ureq::Error::Timeout(ureq::Timeout::Global).to_string());
    assert!(err.starts_with("Error: failed to reach local login listener:"));
    assert!(err.contains("listener is running"));
    assert!(err.contains("relay-login --url <callback_url>"));
}

#[test]
fn query_params_need_a_value() {
    assert!(has_non_empty_query_param("a=1&code=x", "code"));
    assert!(!has_non_empty_query_param("code=&code", "code"));
    assert!(!has_non_empty_query_param("", "code"));
    assert!(has_non_empty_query_param("x&&code=1", "code"));
}
