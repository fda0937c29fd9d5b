use codex_profiles::everycode::{
    accounts_path, assign_label_unique, auth_value_for_api_key, auth_value_for_tokens,
    build_account, build_tokens_from_everycode, classify_import, email_from_id_token,
    empty_accounts_file, export_accounts, finish_export, first_free_suffix, id_token_valid,
    match_account, parse_last_used, resolve_active_account_id, resolve_code_home, summary_line,
    unique_account_id, upsert_account, AuthMode, EveryCodeTokens, ExportItem, ExportStep,
    ImportAction, StoredAccount, StoredAccountRaw,
};
use codex_profiles::profile_store::Labels;
use codex_profiles::ui::Ui;
use codex_profiles::{AuthFile, Tokens};

const PAYLOAD: &str = "eyJlbWFpbCI6IkFAQi5jb20ifQ";

fn s(v: &str) -> String {
    v.to_string()
}

fn token() -> String {
    format!("e30.{PAYLOAD}.sig")
}

fn ec_tokens(account: Option<&str>) -> EveryCodeTokens {
    EveryCodeTokens {
        id_token: token(),
        access_token: s("acc"),
        refresh_token: s("ref"),
        account_id: account.map(s),
    }
}

fn key_account(id: &str, key: &str) -> StoredAccount {
    StoredAccount {
        id: s(id),
        mode: AuthMode::ApiKey,
        label: None,
        openai_api_key: Some(s(key)),
        tokens: None,
        last_refresh: None,
        created_at: None,
        last_used_at: None,
    }
}

fn chat_account(id: &str, account: &str) -> StoredAccount {
    StoredAccount {
        id: s(id),
        mode: AuthMode::Chatgpt,
        label: None,
        openai_api_key: None,
        tokens: Some(ec_tokens(Some(account))),
        last_refresh: None,
        created_at: None,
        last_used_at: None,
    }
}

#[test]
fn id_token_checks() {
    assert!(id_token_valid(&token()));
    assert!(id_token_valid(&format!("e30.{PAYLOAD}")));
    assert!(!id_token_valid("e30.bm90IGpzb24.sig"));
    assert!(!id_token_valid("nodots"));
    assert_eq!(email_from_id_token(&token()).as_deref(), Some("A@B.com"));
    assert_eq!(email_from_id_token(&format!("e30.{PAYLOAD}")), None);
}

#[test]
fn everycode_tokens_become_a_login() {
    let t = build_tokens_from_everycode(&ec_tokens(Some("acct"))).unwrap();
    assert_eq!(t.account_id.as_deref(), Some("acct"));
    assert_eq!(t.refresh_token.as_deref(), Some("ref"));
    assert_eq!(
        build_tokens_from_everycode(&ec_tokens(None)).unwrap_err(),
        "Error: account tokens missing account_id"
    );
    let mut bad = ec_tokens(Some("a"));
    bad.id_token = s("e30.bm90IGpzb24.sig");
    assert_eq!(
        build_tokens_from_everycode(&bad).unwrap_err(),
        "Error: account id_token is invalid"
    );
    bad.id_token = s("  ");
    assert_eq!(
        build_tokens_from_everycode(&bad).unwrap_err(),
        "Error: account tokens missing id_token"
    );
}

#[test]
fn profiles_become_accounts() {
    let key = AuthFile { openai_api_key: Some(s("sk-1")), tokens: None, last_refresh: Some(s("t")) };
    let a = build_account("p", Some(s("lab")), &key).unwrap().unwrap();
    assert_eq!(a.mode, AuthMode::ApiKey);
    assert_eq!(a.id, "p");
    assert_eq!(a.label.as_deref(), Some("lab"));
    assert_eq!(a.last_refresh.as_deref(), Some("t"));
    let tokens = Tokens {
        account_id: Some(s("acct")),
        id_token: Some(token()),
        access_token: Some(s("acc")),
        refresh_token: Some(String::new()),
    };
    let chat = AuthFile { openai_api_key: None, tokens: Some(tokens), last_refresh: None };
    assert_eq!(
        build_account("p", None, &chat).unwrap_err(),
        "Error: profile is missing refresh_token"
    );
    let empty = AuthFile { openai_api_key: Some(String::new()), tokens: None, last_refresh: None };
    assert_eq!(
        build_account("p", None, &empty).unwrap_err(),
        "Error: profile missing tokens and API key; re-save the profile"
    );
}

#[test]
fn accounts_match_by_key_or_identity() {
    assert!(match_account(&key_account("a", "k"), &key_account("b", "k")));
    assert!(!match_account(&key_account("a", "k"), &key_account("b", "j")));
    assert!(match_account(&chat_account("a", "x"), &chat_account("b", "x")));
    assert!(!match_account(&chat_account("a", "x"), &chat_account("b", "y")));
    assert!(!match_account(&chat_account("a", "x"), &key_account("b", "k")));
}

#[test]
fn upsert_merges_or_adds_under_a_free_id() {
    let mut data = empty_accounts_file();
    assert_eq!(upsert_account(&mut data, key_account("p", "k")), "p");
    assert_eq!(upsert_account(&mut data, key_account("p", "j")), "p-2");
    assert_eq!(upsert_account(&mut data, key_account("p", "i")), "p-3");
    let mut again = key_account("other", "j");
    again.label = Some(s("new"));
    assert_eq!(upsert_account(&mut data, again), "p-2");
    assert_eq!(data.accounts.len(), 3);
    assert_eq!(data.accounts[1].label.as_deref(), Some("new"));
    assert_eq!(unique_account_id("q", &data.accounts), "q");
    assert_eq!(first_free_suffix("x", &[s("x-2"), s("x-4")]), "x-3");
}

#[test]
fn active_account_follows_current_login() {
    let mut data = empty_accounts_file();
    data.accounts.push(key_account("a", "k1"));
    data.accounts.push(key_account("b", "k2"));
    let auth = AuthFile { openai_api_key: Some(s("k2")), tokens: None, last_refresh: None };
    assert_eq!(resolve_active_account_id(&data, Some(&auth), None).as_deref(), Some("b"));
    let other = AuthFile { openai_api_key: Some(s("zz")), tokens: None, last_refresh: None };
    assert_eq!(resolve_active_account_id(&data, Some(&other), Some("x")).as_deref(), Some("x"));
    assert_eq!(resolve_active_account_id(&data, Some(&other), None).as_deref(), Some("a"));
    assert_eq!(resolve_active_account_id(&data, None, Some("x")), None);
}

#[test]
fn imported_labels_get_free_variants() {
    let mut labels = Labels::new();
    assign_label_unique(&mut labels, Some(" work "), "a").unwrap();
    assign_label_unique(&mut labels, Some("work"), "a").unwrap();
    assign_label_unique(&mut labels, Some("work"), "b").unwrap();
    assign_label_unique(&mut labels, Some("work"), "c").unwrap();
    assign_label_unique(&mut labels, None, "d").unwrap();
    assign_label_unique(&mut labels, Some("  "), "d").unwrap();
    assert_eq!(labels.keys(), vec![s("work"), s("work-2"), s("work-3")]);
    assert_eq!(labels.get("work-3").map(|v| v.as_str()), Some("c"));
}

#[test]
fn last_used_times_of_imports() {
    assert_eq!(parse_last_used(None, 7), 0);
    assert_eq!(parse_last_used(Some("  "), 7), 0);
    assert_eq!(parse_last_used(Some("1970-01-01T00:01:40Z"), 7), 100);
    assert_eq!(parse_last_used(Some("1960-01-01T00:00:00Z"), 7), 0);
    assert_eq!(parse_last_used(Some("yesterday"), 7), 7);
}

#[test]
fn written_profile_files() {
    let a = auth_value_for_api_key("sk", Some("  "));
    assert_eq!(a.openai_api_key.as_deref(), Some("sk"));
    assert_eq!(a.last_refresh, None);
    let t = Tokens {
        account_id: Some(s("acct")),
        id_token: Some(String::new()),
        access_token: Some(s("acc")),
        refresh_token: None,
    };
    let v = auth_value_for_tokens(&t, Some("when"));
    let tok = v.tokens.unwrap();
    assert_eq!(tok.account_id.as_deref(), Some("acct"));
    assert_eq!(tok.id_token, None);
    assert_eq!(tok.refresh_token, None);
    assert_eq!(v.last_refresh.as_deref(), Some("when"));
}

#[test]
fn export_stores_valid_profiles_and_reports() {
    let ui = Ui::new("codex-profiles");
    let items = vec![
        ExportItem {
            profile_id: s("one"),
            label: None,
            auth: Ok(AuthFile { openai_api_key: Some(s("k1")), tokens: None, last_refresh: None }),
        },
        ExportItem { profile_id: s("bad"), label: None, auth: Err(s("Error: broken")) },
    ];
    let outcome = export_accounts(empty_accounts_file(), items, &ui, false);
    assert_eq!(outcome.exported, 1);
    assert_eq!(outcome.skipped, 1);
    assert_eq!(outcome.steps[0], ExportStep::Stored(s("one")));
    assert_eq!(outcome.steps[1], ExportStep::Skipped(s("Warning: broken")));
    let (data, line) = finish_export(outcome, false, None).unwrap();
    assert_eq!(line, "Exported 1 profile (skipped 1).");
    assert_eq!(data.active_account_id, None);
    let none = export_accounts(empty_accounts_file(), vec![], &ui, false);
    assert_eq!(
        finish_export(none, true, None).unwrap_err(),
        "Error: no valid profiles to export."
    );
    assert_eq!(summary_line("Imported", 2, 0), "Imported 2 profiles.");
}

#[test]
fn import_classifies_accounts() {
    let ui = Ui::new("codex-profiles");
    let raw = |mode: Option<&str>, key: Option<&str>, tokens: Option<EveryCodeTokens>| StoredAccountRaw {
        mode: mode.map(s),
        label: None,
        openai_api_key: key.map(s),
        tokens,
        last_refresh: None,
        last_used_at: None,
    };
    match classify_import(&raw(Some(" ApiKey "), Some("k"), None), &ui, false) {
        ImportAction::ApiKey { api_key } => assert_eq!(api_key, "k"),
        other => panic!("unexpected {other:?}"),
    }
    match classify_import(&raw(Some("apikey"), None, None), &ui, false) {
        ImportAction::Skip { warning } => {
            assert_eq!(warning, "Warning: Skipping API key account missing key value")
        }
        other => panic!("unexpected {other:?}"),
    }
    match classify_import(&raw(Some("chatgpt"), None, Some(ec_tokens(Some("a")))), &ui, false) {
        ImportAction::Chatgpt { tokens } => assert_eq!(tokens.account_id.as_deref(), Some("a")),
        other => panic!("unexpected {other:?}"),
    }
    match classify_import(&raw(None, None, None), &ui, false) {
        ImportAction::Skip { warning } => assert_eq!(
            warning,
            "Warning: Skipping unsupported account mode in Every Code accounts"
        ),
        other => panic!("unexpected {other:?}"),
    }
}

#[test]
fn code_home_resolution() {
    assert_eq!(resolve_code_home(Some(""), None, None).unwrap_err(), "Error: code home cannot be empty");
    assert_eq!(resolve_code_home(Some("/x"), Some("/y"), None).unwrap(), "/x");
    assert_eq!(resolve_code_home(None, Some("/y"), Some("/h")).unwrap(), "/y");
    assert_eq!(resolve_code_home(None, Some(""), Some("/h")).unwrap(), "/h/.code");
    assert_eq!(
        resolve_code_home(None, None, None).unwrap_err(),
        "Error: could not resolve home directory for CODE_HOME"
    );
    assert_eq!(accounts_path("/h/.code"), "/h/.code/auth_accounts.json");
}
