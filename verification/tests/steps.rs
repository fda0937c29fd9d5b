use codex_profiles::desktop::demo_profiles;
use codex_profiles::everycode::{
    finish_import, import_precheck, plan_import, AccountsFileRaw, ImportAction, StoredAccountRaw,
};
use codex_profiles::ide_reload::{
    inspect_ide_reload, reload_commands, reload_ide_best_effort, reload_outcome, ReloadAppTarget,
    ReloadDetection,
};
use codex_profiles::identity::sanitize_part;
use codex_profiles::listing::{current_saved_step, effective_saved_id, looks_up_primary};
use codex_profiles::ui::Ui;

fn raw(mode: Option<&str>, key: Option<&str>) -> StoredAccountRaw {
    StoredAccountRaw {
        mode: mode.map(str::to_string),
        label: None,
        openai_api_key: key.map(str::to_string),
        tokens: None,
        last_refresh: None,
        last_used_at: None,
    }
}

#[test]
fn demo_profiles_lists_the_fixture_in_order() {
    let demo = demo_profiles();
    assert_eq!(demo.len(), 11);
    assert_eq!(demo[0].label, "demo-main");
    assert_eq!(demo[0].status, "active");
    assert_eq!(demo[3].label, "reserved-batch");
    assert!(demo[3].reserved);
    assert_eq!(demo.iter().filter(|p| p.reserved).count(), 1);
    let key = demo[4].availability.as_ref().unwrap();
    assert_eq!(key.tag, "apiKeyUnsupported");
    assert!(!key.retryable);
    assert_eq!(demo[10].label, "weekly-gap");
    assert!(demo[10].availability.is_some());
}

#[test]
fn effective_saved_id_prefers_the_primary_after_refresh() {
    assert_eq!(effective_saved_id(true, Some("old"), Some("new".to_string())), Some("new".to_string()));
    assert_eq!(effective_saved_id(false, Some("old"), Some("new".to_string())), Some("old".to_string()));
    assert_eq!(effective_saved_id(false, None, Some("new".to_string())), Some("new".to_string()));
    assert_eq!(effective_saved_id(true, Some("old"), None), Some("old".to_string()));
    assert_eq!(effective_saved_id(false, None, None), None);
    assert!(looks_up_primary(false, None));
    assert!(!looks_up_primary(false, Some("old")));
}

#[test]
fn current_saved_step_copies_only_after_refresh_and_flags_unsaved() {
    let step = current_saved_step(true, Some("old"), Some("new".to_string()), true);
    assert_eq!(step.saved_id.as_deref(), Some("new"));
    assert_eq!(step.copy_to.as_deref(), Some("new"));
    assert!(!step.unsaved);
    let step = current_saved_step(false, Some("old"), None, true);
    assert_eq!(step.copy_to, None);
    let step = current_saved_step(false, None, None, true);
    assert!(step.unsaved);
    let step = current_saved_step(false, None, None, false);
    assert!(!step.unsaved);
}

#[test]
fn import_plan_classifies_and_counts_accounts() {
    let ui = Ui::new("codex-profiles");
    let data = AccountsFileRaw {
        accounts: vec![
            raw(Some("apikey"), Some("sk-1")),
            raw(Some("apikey"), None),
            raw(Some("other"), None),
        ],
    };
    assert!(import_precheck(&data, "/h/.code/auth_accounts.json").is_ok());
    let plan = plan_import(&data, &ui, false);
    assert_eq!(plan.actions.len(), 3);
    assert_eq!(plan.imported, 1);
    assert_eq!(plan.skipped, 2);
    assert!(matches!(&plan.actions[0], ImportAction::ApiKey { api_key } if api_key == "sk-1"));
    assert!(matches!(&plan.actions[1], ImportAction::Skip { warning }
        if warning == "Warning: Skipping API key account missing key value"));
    assert_eq!(finish_import(plan.imported, plan.skipped).unwrap(), "Imported 1 profile (skipped 2).");
}

#[test]
fn import_errors_on_empty_file_and_nothing_imported() {
    let empty = AccountsFileRaw { accounts: Vec::new() };
    assert_eq!(
        import_precheck(&empty, "/h/a.json").unwrap_err(),
        "Error: no accounts found in /h/a.json"
    );
    assert_eq!(finish_import(0, 3).unwrap_err(), "Error: no valid accounts to import.");
    assert_eq!(finish_import(2, 0).unwrap(), "Imported 2 profiles.");
}

#[test]
fn sanitize_part_is_idempotent() {
    for s in ["A B", "--Hello,  World!--", "a+b@c.d_e", "", "---", "Ünïcode Name"] {
        let once = sanitize_part(s);
        assert_eq!(sanitize_part(&once), once);
        assert!(!once.contains("--"));
        assert!(!once.starts_with('-') && !once.ends_with('-'));
    }
}

#[test]
fn dry_run_runs_no_commands_and_reports_nothing_done() {
    let detection = ReloadDetection { cursor_detected: true, extension_detected: false, standalone_app_pids: vec![7, 9] };
    let dry = reload_commands(true, ReloadAppTarget::All, &detection, true);
    assert!(dry.kill_pids.is_empty());
    assert!(!dry.dispatch_cursor);
    let live = reload_commands(false, ReloadAppTarget::Cursor, &detection, true);
    assert_eq!(live.kill_pids, vec![7, 9]);
    assert!(live.dispatch_cursor);
    let all = reload_commands(false, ReloadAppTarget::All, &detection, true);
    assert!(!all.dispatch_cursor);
    let outcome = reload_outcome(true, ReloadAppTarget::All, &detection, None, None, &vec![], &vec![], false, false);
    assert!(!outcome.attempted && !outcome.restarted);
    assert!(outcome.message.starts_with("Reload hint: "));
    assert!(!outcome.manual_hints.is_empty());
}

#[test]
fn best_effort_reload_restarts_nothing_in_this_build() {
    assert!(!inspect_ide_reload().restarted);
    assert!(!reload_ide_best_effort().restarted);
}

use codex_profiles::identity::{unique_id_step, IdProbe};
use codex_profiles::ide_reload::{
    choose_launch_target, discovery_outcome, override_launch_target, override_needs_local,
    CodexAppLaunchTarget, CodexAppOverride,
};
use codex_profiles::listing::{list_output, Entry};

fn target(path: &str, id: Option<&str>, source: &str) -> CodexAppLaunchTarget {
    CodexAppLaunchTarget {
        executable_path: path.to_string(),
        app_user_model_id: id.map(str::to_string),
        source: source.to_string(),
    }
}

#[test]
fn unique_id_step_takes_free_or_own_ids() {
    assert_eq!(unique_id_step(0, false, None, "acc"), IdProbe::Use);
    assert_eq!(unique_id_step(3, true, Some("acc"), "acc"), IdProbe::Use);
    assert_eq!(unique_id_step(3, true, Some("other"), "acc"), IdProbe::Next(4));
    assert_eq!(unique_id_step(0, true, None, "acc"), IdProbe::Next(1));
}

#[test]
fn launch_target_order_and_overrides() {
    let chosen = choose_launch_target(None, Some(target("env.exe", None, "override")), Some(target("p.exe", None, "running process")));
    assert_eq!(chosen.unwrap().executable_path, "env.exe");
    let o = CodexAppOverride { executable_path: Some("C:\\a\\Codex.exe".to_string()), app_user_model_id: None };
    let t = override_launch_target(&o, true, Some("App!Id".to_string()), None).unwrap();
    assert_eq!(t.app_user_model_id.as_deref(), Some("App!Id"));
    assert_eq!(t.source, "override");
    assert!(!override_needs_local(&o, true));
    let by_id = CodexAppOverride { executable_path: None, app_user_model_id: Some("X!App".to_string()) };
    assert!(override_needs_local(&by_id, false));
    let t = override_launch_target(&by_id, false, None, Some(target("local.exe", None, "Get-AppxPackage"))).unwrap();
    assert_eq!(t.executable_path, "local.exe");
    assert_eq!(t.app_user_model_id.as_deref(), Some("X!App"));
    assert!(override_launch_target(&by_id, false, None, None).is_none());
}

#[test]
fn discovery_outcome_reports_package_errors() {
    let found = discovery_outcome(None, Ok(Some(target("pkg.exe", Some("F!App"), "Get-AppxPackage")))).unwrap();
    assert_eq!(found.source, "Get-AppxPackage");
    assert_eq!(discovery_outcome(None, Ok(None)).unwrap_err(), "could not locate Codex app installation");
    assert_eq!(
        discovery_outcome(None, Err("boom".to_string())).unwrap_err(),
        "failed to query installed Codex app (boom)"
    );
    let running = discovery_outcome(Some(target("run.exe", None, "running process")), Err("x".to_string())).unwrap();
    assert_eq!(running.executable_path, "run.exe");
}

fn entry(display: &str) -> Entry {
    Entry {
        display: display.to_string(),
        last_used: "2h ago".to_string(),
        details: vec!["detail".to_string()],
        error_summary: None,
        always_show_details: false,
        is_current: false,
    }
}

#[test]
fn coloured_list_keeps_every_entry() {
    let ui = Ui::new("codex-profiles");
    let saved = vec![entry("alpha"), entry("beta")];
    let out = list_output(&ui, None, &saved, true, true, true, true, None, false, "none");
    assert!(out.contains("alpha"));
    assert!(out.contains("beta"));
    assert!(out.contains("detail"));
    assert!(!out.contains("none"));
}

#[test]
fn coloured_warning_uses_the_warning_style() {
    let ui = Ui::new("codex-profiles");
    let w = ui.format_warning("careful", true);
    assert!(w == "Warning: careful" || w == "\u{1b}[2;3;33mWarning: careful\u{1b}[0m");
}
