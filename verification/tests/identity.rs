use codex_profiles::identity::{
    candidate_id, has_usage_signal, matches_account, pick_primary, profile_base,
    require_tty_with, sanitize_part, short_account_suffix,
};
use codex_profiles::{extract_email_and_plan, tokens_from_api_key};

#[test]
fn profiles_tests_require_tty_with_variants() {
    assert!(require_tty_with(true, "load", "codex-profiles").is_ok());
    let err = require_tty_with(false, "load", "codex-profiles").unwrap_err();
    assert!(err.contains("requires a TTY"));
}

#[test]
fn profiles_require_tty_with_variants() {
    assert!(require_tty_with(true, "load", "codex-profiles").is_ok());
    let err = require_tty_with(false, "load", "codex-profiles").unwrap_err();
    assert!(err.contains("requires a TTY"));
    assert_eq!(
        err,
        "Error: load selection requires a TTY. Run `codex-profiles load` interactively."
    );
}

#[test]
fn profiles_tests_sanitize_helpers() {
    assert_eq!(sanitize_part("A B"), "a-b");
    assert_eq!(profile_base("", ""), "unknown-unknown");
    assert_eq!(short_account_suffix("abcdef123"), "abcdef");
}

#[test]
fn profiles_sanitize_helpers() {
    assert_eq!(sanitize_part("A B"), "a-b");
    assert_eq!(profile_base("", ""), "unknown-unknown");
    assert_eq!(short_account_suffix("abcdef123"), "abcdef");
}

#[test]
fn sanitizing_collapses_and_trims_dashes() {
    assert_eq!(sanitize_part("--Hello,  World!--"), "hello-world");
    assert_eq!(sanitize_part("a+b@c.d_e"), "a+b@c.d_e");
    assert_eq!(profile_base("Me@Example.com", "Plus"), "me@example.com-plus");
    assert_eq!(short_account_suffix("abc"), "abc");
}

#[test]
fn candidate_ids_grow_with_attempts() {
    assert_eq!(candidate_id("base", "abcdef", 0), "base");
    assert_eq!(candidate_id("base", "abcdef", 1), "base-abcdef");
    assert_eq!(candidate_id("base", "abcdef", 3), "base-abcdef-3");
}

#[test]
fn primary_is_the_most_recent_known_candidate() {
    let map = vec![("a".to_string(), 5), ("b".to_string(), 9), ("c".to_string(), 9)];
    let c = vec!["x".to_string(), "a".to_string(), "b".to_string(), "c".to_string()];
    assert_eq!(pick_primary(&c, &map).as_deref(), Some("b"));
    assert!(has_usage_signal(&c, &map));
    let zero = vec![("a".to_string(), 0)];
    assert!(!has_usage_signal(&c, &zero));
    assert_eq!(pick_primary(&["z".to_string()], &map), None);
}

#[test]
fn account_match_checks_id_and_email() {
    let t = tokens_from_api_key("k");
    let id = t.account_id.clone().unwrap();
    assert!(matches_account(&t, &id, None));
    let email = extract_email_and_plan(&t).0.unwrap();
    assert!(matches_account(&t, &id, Some(email.as_str())));
    assert!(!matches_account(&t, &id, Some("Key")));
    assert!(!matches_account(&t, "other", None));
}
