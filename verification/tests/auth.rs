use base64::engine::general_purpose::URL_SAFE_NO_PAD;
use base64::Engine;
use codex_profiles::auth::{apply_refresh, refresh_token_for, RefreshResponse};
use codex_profiles::{
    extract_email_and_plan, format_plan, is_api_key_profile, is_free_plan, is_profile_ready,
    profile_error, read_tokens, require_identity, token_account_id, tokens_from_api_key, AuthFile,
    Tokens,
};

fn build_id_token(email: &str, plan: &str) -> String {
    let header = "{\"alg\":\"none\",\"typ\":\"JWT\"}";
    let payload = format!(
        "{{\"email\":\"{email}\",\"https://api.openai.com/auth\":{{\"chatgpt_plan_type\":\"{plan}\"}}}}"
    );
    let header = URL_SAFE_NO_PAD.encode(header);
    let payload = URL_SAFE_NO_PAD.encode(payload);
    format!("{header}.{payload}.")
}

fn tokens(account: Option<&str>, id_token: Option<String>, access: Option<&str>) -> Tokens {
    Tokens {
        account_id: account.map(str::to_string),
        id_token,
        access_token: access.map(str::to_string),
        refresh_token: None,
    }
}

#[test]
fn extracts_email_and_plan_from_id_token() {
    let id_token = build_id_token("alpha@example.com", "team");
    let tokens = Tokens {
        account_id: None,
        id_token: Some(id_token),
        access_token: None,
        refresh_token: None,
    };
    let (email, plan) = extract_email_and_plan(&tokens);
    assert_eq!(email.as_deref(), Some("alpha@example.com"));
    assert_eq!(plan.as_deref(), Some("Team"));
}

#[test]
fn extracts_email_and_plan_for_api_key_profile() {
    let tokens = Tokens {
        account_id: Some("api-key-sk-proj-a3x~1234".to_string()),
        id_token: None,
        access_token: None,
        refresh_token: None,
    };
    let (email, plan) = extract_email_and_plan(&tokens);
    assert_eq!(email.as_deref(), Some("~1234"));
    assert_eq!(plan.as_deref(), Some("Key"));
}

#[test]
fn extracts_email_and_plan_for_legacy_api_key_profile() {
    let tokens = Tokens {
        account_id: Some("api-key-1234".to_string()),
        id_token: None,
        access_token: None,
        refresh_token: None,
    };
    let (email, plan) = extract_email_and_plan(&tokens);
    assert_eq!(email.as_deref(), Some("Key"));
    assert_eq!(plan.as_deref(), Some("Key"));
}

#[test]
fn format_plan_title_cases_words() {
    assert_eq!(format_plan("team"), "Team");
    assert_eq!(format_plan("chatgpt_plus-max"), "Chatgpt Plus Max");
    assert_eq!(format_plan("__PRO__"), "Pro");
    assert_eq!(format_plan("--"), "Unknown");
    assert_eq!(format_plan(""), "Unknown");
}

#[test]
fn free_plan_is_recognised_in_any_case() {
    assert!(is_free_plan(Some("Free")));
    assert!(is_free_plan(Some("FREE")));
    assert!(!is_free_plan(Some("freemium")));
    assert!(!is_free_plan(None));
}

#[test]
fn api_key_tokens_round_trip_to_api_key_profile() {
    let t = tokens_from_api_key("sk-proj-abc/def");
    let id = t.account_id.clone().unwrap();
    assert!(id.starts_with("api-key-sk-proj-abc-"));
    assert_eq!(id.split('~').nth(1).unwrap().len(), 16);
    assert!(is_api_key_profile(&t));
    assert!(is_profile_ready(&t));
    // The display label is `~` and the last sixteen characters of the hash.
    let (email, plan) = extract_email_and_plan(&t);
    assert_eq!(email.unwrap(), format!("~{}", id.split('~').nth(1).unwrap()));
    assert_eq!(plan.as_deref(), Some("Key"));
}

#[test]
fn api_key_profile_id_hashes_the_key() {
    // FNV-1a of the empty key is the offset basis.
    let t = tokens_from_api_key("");
    assert_eq!(t.account_id.as_deref(), Some("api-key-~cbf29ce484222325"));
    // FNV-1a of "a".
    let t = tokens_from_api_key("a");
    assert_eq!(t.account_id.as_deref(), Some("api-key-a~af63dc4c8601ec8c"));
}

#[test]
fn readiness_needs_account_access_email_and_plan() {
    let id_token = build_id_token("alpha@example.com", "team");
    let ready = tokens(Some("acct"), Some(id_token.clone()), Some("tok"));
    assert!(is_profile_ready(&ready));
    let no_access = tokens(Some("acct"), Some(id_token.clone()), None);
    assert!(!is_profile_ready(&no_access));
    let empty_access = tokens(Some("acct"), Some(id_token.clone()), Some(""));
    assert!(!is_profile_ready(&empty_access));
    let no_account = tokens(None, Some(id_token), Some("tok"));
    assert!(!is_profile_ready(&no_account));
}

#[test]
fn require_identity_reports_the_first_missing_part() {
    let id_token = build_id_token("alpha@example.com", "team");
    let ok = tokens(Some("acct"), Some(id_token), Some("tok"));
    let (account, email, plan) = require_identity(&ok).unwrap();
    assert_eq!((account.as_str(), email.as_str(), plan.as_str()), ("acct", "alpha@example.com", "Team"));
    let err = require_identity(&tokens(None, None, None)).unwrap_err();
    assert_eq!(
        err,
        "Error: auth.json is missing tokens.account_id. Run `codex login` to reauthenticate."
    );
    let err = require_identity(&tokens(Some("acct"), None, None)).unwrap_err();
    assert_eq!(
        err,
        "Error: auth.json is missing id_token email. Run `codex login` to reauthenticate."
    );
    let no_plan = format!(
        "{}.{}.",
        URL_SAFE_NO_PAD.encode("{}"),
        URL_SAFE_NO_PAD.encode("{\"email\":\"a@b.c\"}")
    );
    let err = require_identity(&tokens(Some("acct"), Some(no_plan), None)).unwrap_err();
    assert_eq!(
        err,
        "Error: auth.json is missing id_token plan. Run `codex login` to reauthenticate."
    );
}

#[test]
fn undecodable_id_token_gives_no_identity() {
    let (email, plan) = extract_email_and_plan(&tokens(Some("acct"), Some("abc".into()), None));
    assert!(email.is_none() && plan.is_none());
    let (email, plan) =
        extract_email_and_plan(&tokens(Some("acct"), Some("a.!!!.b".into()), None));
    assert!(email.is_none() && plan.is_none());
}

#[test]
fn profile_error_names_the_missing_field() {
    let t = tokens(Some("acct"), None, None);
    assert_eq!(profile_error(&t, None, Some("Pro")), Some("profile missing id_token email/plan"));
    assert_eq!(
        profile_error(&t, Some("a@b"), Some("Pro")),
        Some("profile missing tokens.access_token")
    );
    let t = tokens(Some(""), None, Some("tok"));
    assert_eq!(profile_error(&t, Some("a@b"), Some("Pro")), Some("profile missing tokens.account_id"));
    let t = tokens(Some("acct"), None, Some("tok"));
    assert_eq!(profile_error(&t, Some("a@b"), Some("Pro")), None);
    assert_eq!(profile_error(&tokens_from_api_key("k"), None, None), None);
}

#[test]
fn account_id_must_not_be_empty() {
    assert_eq!(token_account_id(&tokens(Some(""), None, None)), None);
    assert_eq!(token_account_id(&tokens(Some("x"), None, None)), Some("x"));
}

#[test]
fn read_tokens_prefers_tokens_then_api_key() {
    let auth = AuthFile { openai_api_key: Some("k".into()), tokens: None, last_refresh: None };
    let t = read_tokens("auth.json", Ok(auth)).unwrap();
    assert!(is_api_key_profile(&t));
    let auth = AuthFile { openai_api_key: None, tokens: None, last_refresh: None };
    assert_eq!(
        read_tokens("auth.json", Ok(auth)).unwrap_err(),
        "Error: missing tokens in auth.json. Run `codex login` to authenticate."
    );
    assert_eq!(read_tokens("auth.json", Err("boom".into())).unwrap_err(), "boom");
}

#[test]
fn refresh_keeps_tokens_the_reply_lacks() {
    let mut t = Tokens {
        account_id: Some("acct".into()),
        id_token: Some("old-id".into()),
        access_token: Some("old".into()),
        refresh_token: Some("r1".into()),
    };
    assert_eq!(refresh_token_for(&t).unwrap(), "r1");
    let reply = RefreshResponse { id_token: None, access_token: Some("new".into()), refresh_token: None };
    apply_refresh(&mut t, &reply).unwrap();
    assert_eq!(t.access_token.as_deref(), Some("new"));
    assert_eq!(t.id_token.as_deref(), Some("old-id"));
    assert_eq!(t.refresh_token.as_deref(), Some("r1"));
    let bad = RefreshResponse { id_token: None, access_token: None, refresh_token: None };
    assert_eq!(
        apply_refresh(&mut t, &bad).unwrap_err(),
        "Error: refresh response missing access_token."
    );
    t.refresh_token = Some(String::new());
    assert!(refresh_token_for(&t).is_err());
}

fn token_with_payload(payload: &str) -> Tokens {
    let header = URL_SAFE_NO_PAD.encode("{\"alg\":\"none\"}");
    let payload = URL_SAFE_NO_PAD.encode(payload);
    tokens(None, Some(format!("{header}.{payload}.")), None)
}

#[test]
fn claims_of_the_wrong_type_reject_the_whole_payload() {
    let wrong_email = token_with_payload(
        "{\"email\":5,\"https://api.openai.com/auth\":{\"chatgpt_plan_type\":\"pro\"}}",
    );
    assert_eq!(extract_email_and_plan(&wrong_email), (None, None));
    let wrong_auth = token_with_payload("{\"email\":\"a@b.c\",\"https://api.openai.com/auth\":\"pro\"}");
    assert_eq!(extract_email_and_plan(&wrong_auth), (None, None));
    let wrong_plan = token_with_payload(
        "{\"email\":\"a@b.c\",\"https://api.openai.com/auth\":{\"chatgpt_plan_type\":1}}",
    );
    assert_eq!(extract_email_and_plan(&wrong_plan), (None, None));
    let null_auth = token_with_payload("{\"email\":\"a@b.c\",\"https://api.openai.com/auth\":null}");
    assert_eq!(extract_email_and_plan(&null_auth), (Some("a@b.c".to_string()), None));
}
