use codex_profiles::updates::{
    detect_install_source_inner, dismiss_version, extract_version_from_cask,
    extract_version_from_latest_tag, get_update_action_with_debug, get_upgrade_version,
    get_upgrade_version_for_popup, is_newer, next_version_info, parse_version,
    should_check_for_update, update_prompt_outcome, updates_disabled_with_debug, InstallSource,
    UpdateAction, UpdateConfig, UpdatePromptOutcome, VersionInfo,
};

fn config(enabled: bool) -> UpdateConfig {
    UpdateConfig { codex_home: String::new(), check_for_update_on_startup: enabled }
}

fn info(latest: &str) -> VersionInfo {
    VersionInfo {
        latest_version: latest.to_string(),
        last_checked_at: 1_000,
        dismissed_version: None,
        last_prompted_at: None,
    }
}

#[test]
fn update_action_commands() {
    let (cmd, args) = UpdateAction::NpmGlobalLatest.command_args();
    assert_eq!(cmd, "npm");
    assert!(args.contains(&"install"));
    assert!(UpdateAction::BunGlobalLatest.command_str().contains("bun"));
    assert_eq!(UpdateAction::BrewUpgrade.command_str(), "brew upgrade codex-profiles");
}

#[test]
fn detect_install_source_inner_variants() {
    let exe = "/usr/local/bin/codex-profiles";
    assert_eq!(detect_install_source_inner(true, exe, false, false), InstallSource::Brew);
    assert_eq!(detect_install_source_inner(false, exe, true, false), InstallSource::Npm);
    assert_eq!(detect_install_source_inner(false, exe, false, true), InstallSource::Bun);
}

#[test]
fn brew_paths_compare_whole_components() {
    assert_eq!(
        detect_install_source_inner(true, "/usr/localx/bin/codex-profiles", false, false),
        InstallSource::Unknown
    );
    assert_eq!(
        detect_install_source_inner(true, "//opt//homebrew/./bin/codex-profiles/", false, false),
        InstallSource::Brew
    );
    assert_eq!(
        detect_install_source_inner(true, "/opt/homebrew/bin/other", false, false),
        InstallSource::Unknown
    );
    assert_eq!(
        detect_install_source_inner(false, "/opt/homebrew/bin/codex-profiles", false, false),
        InstallSource::Unknown
    );
}

#[test]
fn get_update_action_debug() {
    assert!(get_update_action_with_debug(true, InstallSource::Npm).is_none());
    assert!(get_update_action_with_debug(false, InstallSource::Npm).is_some());
}

#[test]
fn extract_version_helpers() {
    assert_eq!(extract_version_from_latest_tag("v1.2.3").unwrap(), "1.2.3");
    assert_eq!(extract_version_from_latest_tag("rust-v2.0.0").unwrap(), "2.0.0");
    assert!(extract_version_from_latest_tag("bad").is_err());
    let cask = "version \"1.2.3\"";
    assert_eq!(extract_version_from_cask(cask).unwrap(), "1.2.3");
    assert!(extract_version_from_cask("nope").is_err());
}

#[test]
fn cask_version_is_found_on_any_line() {
    let cask = "cask \"codex-profiles\" do\n  version \"0.4.1\"\n  sha256 \"x\"\nend\n";
    assert_eq!(extract_version_from_cask(cask).unwrap(), "0.4.1");
    assert_eq!(
        extract_version_from_latest_tag("bad").unwrap_err(),
        "Failed to parse latest tag name 'bad'"
    );
}

#[test]
fn parse_version_and_compare() {
    assert_eq!(parse_version("1.2.3"), Some((1, 2, 3)));
    assert!(is_newer("2.0.0", "1.9.9").unwrap());
    assert!(is_newer("bad", "1.0.0").is_none());
    assert_eq!(parse_version(" 1.2.3.4 "), Some((1, 2, 3)));
    assert_eq!(parse_version("1.2"), None);
    assert_eq!(is_newer("1.2.3", "1.2.3"), Some(false));
}

#[test]
fn updates_disabled_variants() {
    assert!(updates_disabled_with_debug(&config(false), false));
    assert!(updates_disabled_with_debug(&config(true), true));
    assert!(!updates_disabled_with_debug(&config(true), false));
}

#[test]
fn checks_run_after_twenty_hours() {
    assert!(should_check_for_update(None, 0));
    let i = info("1.0.0");
    assert!(!should_check_for_update(Some(&i), 1_000 + 20 * 3600));
    assert!(should_check_for_update(Some(&i), 1_001 + 20 * 3600));
}

#[test]
fn upgrade_offered_only_for_newer_versions() {
    assert_eq!(get_upgrade_version(&config(true), false, Some(&info("9.0.0")), "1.0.0").as_deref(), Some("9.0.0"));
    assert_eq!(get_upgrade_version(&config(true), false, Some(&info("1.0.0")), "1.0.0"), None);
    assert_eq!(get_upgrade_version(&config(false), false, Some(&info("9.0.0")), "1.0.0"), None);
}

#[test]
fn popup_respects_dismissal_and_recent_prompt() {
    let mut i = info("9.0.0");
    let (shown, write) = get_upgrade_version_for_popup(&config(true), false, Some("9.0.0".into()), Some(i.clone()), 100_000);
    assert_eq!(shown.as_deref(), Some("9.0.0"));
    assert_eq!(write.unwrap().last_prompted_at, Some(100_000));
    i.dismissed_version = Some("9.0.0".into());
    let (shown, _) = get_upgrade_version_for_popup(&config(true), false, Some("9.0.0".into()), Some(i.clone()), 100_000);
    assert!(shown.is_none());
    i.dismissed_version = None;
    i.last_prompted_at = Some(90_000);
    let (shown, _) = get_upgrade_version_for_popup(&config(true), false, Some("9.0.0".into()), Some(i), 100_000);
    assert!(shown.is_none());
    let dismissed = dismiss_version(&config(true), false, Some(info("9.0.0")), "9.0.0", 5).unwrap();
    assert_eq!(dismissed.dismissed_version.as_deref(), Some("9.0.0"));
    let next = next_version_info(None, "1.0.0", Some(&dismissed), 7);
    assert_eq!(next.latest_version, "1.0.0");
    assert_eq!(next.dismissed_version.as_deref(), Some("9.0.0"));
}

#[test]
fn prompt_answers() {
    assert_eq!(
        update_prompt_outcome(" 1\n", UpdateAction::NpmGlobalLatest),
        (UpdatePromptOutcome::RunUpdate(UpdateAction::NpmGlobalLatest), false)
    );
    assert_eq!(update_prompt_outcome("3", UpdateAction::NpmGlobalLatest), (UpdatePromptOutcome::Continue, true));
    assert_eq!(update_prompt_outcome("2", UpdateAction::NpmGlobalLatest), (UpdatePromptOutcome::Continue, false));
}
