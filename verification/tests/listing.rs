use codex_profiles::identity::{
    cached_profile_ids, rename_records, save_id_choice, scan_profile_ids, sync_id_choice,
    usage_map_of, SaveIdChoice, SyncIdChoice,
};
use codex_profiles::listing::{
    confirm_delete_profiles_with, current_entry, delete_prompt, detail_after_fetch,
    detail_after_refresh, detail_after_retry, detail_start, error_summary, handle_inquire_result,
    list_output, make_candidate, make_error, profile_info_with_fallback, prompt_unsaved_load_with,
    refresh_plan, render_entries, saved_entry, select_by_label, DetailAfterFetch,
    DetailAfterRefresh, DetailStart, Entry, LoadChoice, PromptResult, RefreshAttempt, RefreshPlan,
};
use codex_profiles::profile_store::{assign_label, Labels, ProfileIndexEntry, ProfilesIndex};
use codex_profiles::strmap::StrMap;
use codex_profiles::tokens_from_api_key;
use codex_profiles::ui::Ui;
use codex_profiles::usage::UsageFetchError;
use codex_profiles::usage_order::{
    ordered_profiles_by_usage, usage_fetch_target, usage_sort_key, UsageSortKey,
};
use codex_profiles::Tokens;

fn s(v: &str) -> String {
    v.to_string()
}

fn ui() -> Ui {
    Ui::new("codex-profiles")
}

fn entry(display: &str, details: &[&str], summary: Option<&str>, always: bool) -> Entry {
    Entry {
        display: s(display),
        last_used: s("5m ago"),
        details: details.iter().map(|d| s(d)).collect(),
        error_summary: summary.map(s),
        always_show_details: always,
        is_current: false,
    }
}

fn chat_tokens() -> Tokens {
    Tokens {
        account_id: Some(s("acct")),
        id_token: None,
        access_token: Some(s("acc")),
        refresh_token: Some(s("ref")),
    }
}

#[test]
fn entries_render_with_separators() {
    let ui = ui();
    let entries = vec![
        entry("a", &["d1", "d2"], None, true),
        entry("b", &[], Some("Error: x"), false),
    ];
    let lines = render_entries(&ui, &entries, true, false, false, None, false);
    assert_eq!(lines, vec![s("a (5m ago)"), s("d1"), s("d2"), s(""), s("b (5m ago)  Error: x")]);
    let lines = render_entries(&ui, &entries, false, true, false, Some("---"), false);
    assert_eq!(lines, vec![s("a"), s("d1"), s("d2"), s("---"), s("b")]);
    let mut plain = ui.clone();
    plain.set_plain(true);
    let lines = render_entries(&plain, &entries, false, false, false, None, false);
    assert_eq!(lines, vec![s("a"), s("d1"), s("d2"), s("b  Error: x")]);
}

#[test]
fn list_output_layouts() {
    let ui = ui();
    let current = entry("cur", &["u"], None, true);
    let saved = vec![entry("s1", &[], None, false)];
    assert_eq!(
        list_output(&ui, None, &[], false, true, false, false, None, false, "none"),
        "none"
    );
    assert_eq!(
        list_output(&ui, Some(current.clone()), &[], false, false, false, false, Some("--"), true, "none"),
        "cur\nu"
    );
    assert_eq!(
        list_output(&ui, Some(current), &saved, true, false, false, false, Some("--"), true, "none"),
        "cur\nu\n--\ns1"
    );
}

#[test]
fn errors_and_identity_of_entries() {
    let ui = ui();
    assert_eq!(error_summary("Usage error", "Error: boom"), "Usage error: boom");
    let mut idx = ProfileIndexEntry::blank();
    idx.email = Some(s("me@x.com"));
    idx.plan = Some(s("Plus"));
    idx.reserved = true;
    let info = profile_info_with_fallback(&ui, None, Some(&idx), Some(s("work")), false, false);
    assert!(info.display.ends_with(" [reserved]"));
    assert!(info.display.contains("me@x.com"));
    assert_eq!(info.plan.as_deref(), Some("Plus"));
    assert!(!info.is_free);
    let e = make_error(&ui, None, None, false, s(""), "profile file missing", "Error", true);
    assert_eq!(e.details, vec![s("Error: profile file missing")]);
    assert_eq!(e.error_summary.as_deref(), Some("Error: profile file missing"));
    assert!(e.is_current);
}

#[test]
fn usage_details_decisions() {
    let ui = ui();
    let key = tokens_from_api_key("sk-x");
    match detail_start(&ui, &key, Some("k"), Some("Key"), true, Some("http://u"), false) {
        DetailStart::Done { lines, summary } => {
            assert_eq!(lines, vec![s("Usage unavailable for API key login")]);
            assert!(summary.is_none());
        }
        other => panic!("unexpected {other:?}"),
    }
    let t = chat_tokens();
    match detail_start(&ui, &t, Some("me@x.com"), Some("Plus"), true, Some("http://u"), false) {
        DetailStart::Fetch { base_url, access_token, account_id, unavailable_text } => {
            assert_eq!(base_url, "http://u");
            assert_eq!(access_token, "acc");
            assert_eq!(account_id, "acct");
            assert_eq!(unavailable_text, "Data not available");
        }
        other => panic!("unexpected {other:?}"),
    }
    match detail_start(&ui, &t, None, None, false, None, false) {
        DetailStart::Done { lines, summary } => {
            assert_eq!(lines, vec![s("Error: profile missing id_token email/plan")]);
            assert_eq!(summary.as_deref(), Some("Error: profile missing id_token email/plan"));
        }
        other => panic!("unexpected {other:?}"),
    }
    match detail_start(&ui, &t, Some("a"), Some("free"), false, None, false) {
        DetailStart::Done { lines, .. } => {
            assert_eq!(lines, vec![s("You need a ChatGPT subscription to use Codex CLI")])
        }
        other => panic!("unexpected {other:?}"),
    }
    assert!(matches!(
        detail_after_fetch(Err(UsageFetchError::Status(401)), true, false),
        DetailAfterFetch::Refresh
    ));
    match detail_after_fetch(Err(UsageFetchError::Status(401)), false, false) {
        DetailAfterFetch::Done { lines, summary } => {
            assert_eq!(lines, vec![s("Error: failed to fetch usage: http status: 401")]);
            assert_eq!(
                summary.as_deref(),
                Some("Usage error: failed to fetch usage: http status: 401")
            );
        }
        DetailAfterFetch::Refresh => panic!("no refresh expected"),
    }
    match detail_after_refresh(Ok(()), None, false) {
        DetailAfterRefresh::Done { summary, .. } => {
            assert_eq!(summary.as_deref(), Some("Auth error: refreshed access_token is missing."))
        }
        other => panic!("unexpected {other:?}"),
    }
    match detail_after_refresh(Ok(()), Some("new"), false) {
        DetailAfterRefresh::Fetch { access_token } => assert_eq!(access_token, "new"),
        other => panic!("unexpected {other:?}"),
    }
    let (lines, summary) = detail_after_retry(Ok(vec![s("5h: 10%")]), false);
    assert_eq!(lines, vec![s("5h: 10%")]);
    assert!(summary.is_none());
}

#[test]
fn refresh_and_entry_finishing() {
    let ui = ui();
    let t = chat_tokens();
    assert_eq!(refresh_plan(&t, false), RefreshPlan::Skip);
    assert_eq!(refresh_plan(&t, true), RefreshPlan::Refresh);
    let mut no_refresh = chat_tokens();
    no_refresh.refresh_token = Some(String::new());
    assert!(matches!(refresh_plan(&no_refresh, true), RefreshPlan::Fail(_)));
    let info = profile_info_with_fallback(&ui, Some(&t), None, None, false, false);
    let failed = RefreshAttempt::Failed(s("Error: expired"));
    let e = saved_entry(&ui, info.clone(), s("1m ago"), vec![s("d")], None, &failed, false, false);
    assert_eq!(e.details, vec![s("Warning: expired"), s("d")]);
    assert_eq!(e.error_summary.as_deref(), Some("Auth refresh: expired"));
    let c = current_entry(&ui, info, vec![s("d")], None, &RefreshAttempt::Skipped, true, true, false);
    assert_eq!(
        c.details,
        vec![
            s("d"),
            s("WARNING: This profile is not saved yet."),
            s("Run `codex-profiles save` to save this profile."),
        ]
    );
    assert!(c.always_show_details);
    assert!(c.is_current);
}

#[test]
fn selection_and_prompts() {
    let ui = ui();
    let mut labels = Labels::new();
    assign_label(&mut labels, "work", "b", &ui, false).unwrap();
    let info = profile_info_with_fallback(&ui, None, None, None, false, false);
    let cands = vec![
        make_candidate("a", info.clone(), s("1m ago"), false),
        make_candidate("b", info, s("2m ago"), true),
    ];
    assert_eq!(cands[1].last_used, "");
    assert_eq!(select_by_label(&ui, "work", &labels, &cands, false), Ok(1));
    assert!(select_by_label(&ui, "home", &labels, &cands, false).is_err());
    assert_eq!(
        select_by_label(&ui, "work", &labels, &cands[..1], false).unwrap_err(),
        "Error: label 'work' does not match a saved profile. \n\nRun `codex-profiles list` to see saved profiles."
    );
    assert_eq!(handle_inquire_result::<u8>(PromptResult::Cancelled, "x"), Err(s("Cancelled.")));
    assert_eq!(
        handle_inquire_result::<u8>(PromptResult::Failed(s("io")), "selection"),
        Err(s("Error: failed to prompt for selection: io"))
    );
    assert_eq!(confirm_delete_profiles_with(true, PromptResult::Answer(true)), Ok(true));
    assert!(confirm_delete_profiles_with(false, PromptResult::Answer(true)).is_err());
    assert_eq!(delete_prompt(&[s("a")]), "Delete profile a? This cannot be undone.");
    assert_eq!(
        prompt_unsaved_load_with(true, "h", PromptResult::Answer(s("Continue without saving"))),
        Ok(LoadChoice::ContinueWithoutSaving)
    );
    assert_eq!(
        prompt_unsaved_load_with(true, "h", PromptResult::Cancelled),
        Ok(LoadChoice::Cancel)
    );
    assert_eq!(
        prompt_unsaved_load_with(false, "hint", PromptResult::Cancelled),
        Err(s("Error: current profile is not saved. hint"))
    );
}

#[test]
fn identity_choices() {
    let t = chat_tokens();
    let other = Tokens { account_id: Some(s("zz")), ..chat_tokens() };
    let map = vec![(s("a"), Ok(t.clone())), (s("b"), Ok(other)), (s("c"), Err(s("bad")))];
    assert_eq!(cached_profile_ids(&map, "acct", None), vec![s("a")]);
    let files = vec![(s("/p/x.json"), Ok(t.clone())), (s("/p/y.json"), Err(s("bad")))];
    assert_eq!(scan_profile_ids(&files, "acct", None), vec![s("x")]);
    let usage = vec![(s("old"), 5), (s("new"), 0)];
    let cands = vec![s("old"), s("new")];
    assert_eq!(save_id_choice("new", &cands, &usage), SaveIdChoice::Rename(s("old")));
    assert_eq!(save_id_choice("old", &cands, &usage), SaveIdChoice::Use(s("old")));
    assert_eq!(sync_id_choice("new", &cands, &usage), SyncIdChoice::Rename(s("old")));
    let quiet = vec![(s("old"), 0), (s("new"), 0)];
    assert_eq!(sync_id_choice("new", &cands, &quiet), SyncIdChoice::Use(Some(s("new"))));
    assert_eq!(sync_id_choice("z", &cands, &quiet), SyncIdChoice::Use(None));
    assert_eq!(sync_id_choice("z", &[s("only")], &quiet), SyncIdChoice::Use(Some(s("only"))));
}

#[test]
fn renamed_profiles_keep_their_records() {
    let ui = ui();
    let mut usage: StrMap<u64> = usage_map_of(&[(s("a"), 1), (s("a"), 4), (s("b"), 2)]);
    assert_eq!(usage.get("a"), Some(&4));
    let mut labels = Labels::new();
    assign_label(&mut labels, "work", "a", &ui, false).unwrap();
    let mut index = ProfilesIndex::empty();
    index.profiles.insert(s("a"), ProfileIndexEntry::blank());
    index.active_profile_id = Some(s("a"));
    rename_records(&mut usage, &mut labels, &mut index, "a", "z");
    assert_eq!(usage.get("z"), Some(&4));
    assert_eq!(usage.get("a"), None);
    assert!(labels.is_empty());
    assert!(index.profiles.contains_key("z"));
    assert_eq!(index.active_profile_id.as_deref(), Some("z"));
}

#[test]
fn usage_order_of_the_list() {
    let usable = usage_sort_key(Some(50), Some(40), None, None).unwrap();
    assert!(usable.usable);
    let spent = usage_sort_key(Some(0), Some(10), Some(100), Some(900)).unwrap();
    assert!(!spent.usable);
    assert_eq!(spent.reset_at, Some(100));
    let both = usage_sort_key(Some(0), Some(0), Some(100), Some(900)).unwrap();
    assert_eq!(both.reset_at, Some(900));
    assert_eq!(usage_sort_key(None, Some(1), None, None), None);
    let entries = vec![(s("none"), 9), (s("spent"), 1), (s("best"), 1), (s("ok"), 3)];
    let keys = vec![
        None,
        Some(spent),
        Some(usage_sort_key(Some(90), Some(90), None, None).unwrap()),
        Some(usable),
    ];
    let ordered = ordered_profiles_by_usage(entries, &keys);
    let ids: Vec<&str> = ordered.iter().map(|i| i.id.as_str()).collect();
    assert_eq!(ids, vec!["best", "ok", "spent", "none"]);
    assert_eq!(UsageSortKey::none().usable, false);
    let t = chat_tokens();
    assert_eq!(usage_fetch_target(Some(&t), None), Some((s("acc"), s("acct"))));
    let key = tokens_from_api_key("sk-1");
    assert_eq!(usage_fetch_target(Some(&key), None), None);
    let mut idx = ProfileIndexEntry::blank();
    idx.plan = Some(s("free"));
    assert_eq!(usage_fetch_target(Some(&t), Some(&idx)), None);
}
