use codex_profiles::cli::examples_root;
use codex_profiles::common::{
    command_name_from, join_path, package_command_name, resolve_home_dir, resolve_paths,
};
use codex_profiles::desktop::{
    check_profile_selection, command_result, env_flag, gui_demo_mode, parse_reload_target,
    reload_targets_payload, smoke_flag, smoke_trace_path, unknown_reload_target,
    DesktopCommandResult,
};
use codex_profiles::ide_reload::ReloadAppTarget;
use codex_profiles::relay::relay_login;
use codex_profiles::requirements::{
    command_candidates, command_paths, ensure_codex_cli, install_command, split_text, Platform,
};
use codex_profiles::ui::Ui;
use codex_profiles::updates::InstallSource;

fn s(v: &str) -> String {
    v.to_string()
}

#[test]
fn paths_under_home() {
    let p = resolve_paths(Some("/home/me")).unwrap();
    assert_eq!(p.codex, "/home/me/.codex");
    assert_eq!(p.auth, "/home/me/.codex/auth.json");
    assert_eq!(p.profiles, "/home/me/.codex/profiles");
    assert_eq!(p.profiles_index, "/home/me/.codex/profiles/profiles.json");
    assert_eq!(p.usage, "/home/me/.codex/profiles/usage.tsv");
    assert_eq!(p.usage_lock, "/home/me/.codex/profiles/usage.lock");
    assert_eq!(p.labels, "/home/me/.codex/profiles/labels.json");
    assert_eq!(
        resolve_paths(None).unwrap_err(),
        "Error: could not resolve home directory"
    );
    assert_eq!(join_path("/a/", "b"), "/a/b");
    assert_eq!(join_path("/a", "/b"), "/b");
}

#[test]
fn home_directory_order() {
    assert_eq!(
        resolve_home_dir(Some("/p"), Some("/b"), Some("/h"), None, None, None).as_deref(),
        Some("/p")
    );
    assert_eq!(
        resolve_home_dir(Some(""), Some("/b"), Some("/h"), None, None, None).as_deref(),
        Some("/b")
    );
    assert_eq!(
        resolve_home_dir(None, None, Some(""), Some("/u"), None, None).as_deref(),
        Some("/u")
    );
    assert_eq!(
        resolve_home_dir(None, None, None, None, Some("C:"), Some("/Users/me")).as_deref(),
        Some("/Users/me")
    );
    assert_eq!(
        resolve_home_dir(None, None, None, None, Some("drive"), Some("me")).as_deref(),
        Some("drive/me")
    );
    assert_eq!(resolve_home_dir(None, None, None, None, Some("d"), None), None);
}

#[test]
fn command_name_sources() {
    assert_eq!(package_command_name(), "codex-profiles");
    assert_eq!(command_name_from(Some("  cx  "), Some("/bin/other")), "cx");
    assert_eq!(command_name_from(Some("  "), Some("/usr/bin/other")), "other");
    assert_eq!(command_name_from(None, Some("/")), "codex-profiles");
    assert_eq!(command_name_from(None, None), "codex-profiles");
}

#[test]
fn codex_cli_requirement() {
    assert!(ensure_codex_cli(InstallSource::Npm, Platform::Other, true, false).is_ok());
    assert!(ensure_codex_cli(InstallSource::Npm, Platform::Other, false, true).is_ok());
    assert_eq!(
        ensure_codex_cli(InstallSource::Brew, Platform::Other, false, false).unwrap_err(),
        "Error: Codex CLI not found. Install it with `brew install --cask codex`."
    );
    assert_eq!(
        install_command(InstallSource::Unknown, Platform::Windows),
        "winget install OpenAI.Codex"
    );
    assert_eq!(
        install_command(InstallSource::Unknown, Platform::MacOs),
        "brew install --cask codex or npm install -g @openai/codex"
    );
    assert_eq!(command_candidates("codex", Platform::Other, None), vec![s("codex")]);
    assert_eq!(
        command_candidates("codex", Platform::Windows, None),
        vec![s("codex.EXE"), s("codex.CMD"), s("codex.BAT"), s("codex.COM")]
    );
    assert_eq!(
        command_candidates("codex", Platform::Windows, Some(".EXE;;.PS1")),
        vec![s("codex.EXE"), s("codex.PS1")]
    );
    assert_eq!(command_candidates("codex.exe", Platform::Windows, None), vec![s("codex.exe")]);
    assert_eq!(split_text("a;;b", ';'), vec![s("a"), s(""), s("b")]);
    assert_eq!(
        command_paths(&[s("/bin"), s("/usr/bin/")], &[s("codex")]),
        vec![s("/bin/codex"), s("/usr/bin/codex")]
    );
}

#[test]
fn help_examples() {
    let text = examples_root("cx");
    assert!(text.starts_with("Examples:\n  cx save --label work\n  cx load --label work\n"));
    assert!(text.ends_with("\n  cx status --current\n  cx delete --label work"));
    assert_eq!(text.lines().count(), 17);
}

#[test]
fn desktop_checks() {
    assert!(env_flag(Some(" Yes ")));
    assert!(env_flag(Some("on")));
    assert!(!env_flag(Some("nope")));
    assert!(!env_flag(None));
    assert!(smoke_flag(Some("TRUE")));
    assert!(!smoke_flag(Some("on")));
    assert!(gui_demo_mode(None, Some("1")));
    assert_eq!(parse_reload_target("codex"), Some(ReloadAppTarget::Codex));
    assert_eq!(parse_reload_target("all"), None);
    match unknown_reload_target::<u8>() {
        DesktopCommandResult::Failure(f) => {
            assert_eq!(f.error.code, "unknown-reload-target");
            assert!(!f.error.retryable);
        }
        DesktopCommandResult::Success(_) => panic!("expected a failure"),
    }
    assert!(check_profile_selection::<u8>(" x ", "m").is_none());
    match check_profile_selection::<u8>("  ", "Choose a profile before executing a switch.") {
        Some(DesktopCommandResult::Failure(f)) => {
            assert_eq!(f.error.code, "missing-profile-selection");
            assert_eq!(f.error.message, "Choose a profile before executing a switch.");
            assert!(f.error.retryable);
            assert!(!f.ok);
        }
        _ => panic!("expected a failure"),
    }
    match command_result::<u8>(Err(s("boom")), "switcher-query-failed") {
        DesktopCommandResult::Failure(f) => assert_eq!(f.error.message, "boom"),
        DesktopCommandResult::Success(_) => panic!("expected a failure"),
    }
    match command_result(Ok(5u8), "x") {
        DesktopCommandResult::Success(ok) => assert!(ok.ok && ok.data == 5),
        DesktopCommandResult::Failure(_) => panic!("expected success"),
    }
    let targets = reload_targets_payload(false);
    assert_eq!(targets.targets.len(), 2);
    assert_eq!(targets.targets[1].label, "Reload Cursor");
    assert_eq!(targets.last_reloaded, "Shared Rust reload services are ready.");
    assert_eq!(smoke_trace_path("/h/.codex"), "/h/.codex/desktop-smoke-trace.json");
}

#[test]
fn relay_login_paths() {
    let ui = Ui::new("codex-profiles");
    let url = "http://localhost:1455/auth/callback?code=c&state=s";
    let ok = relay_login(Some(s(url)), false, || Ok(String::new()), |_u: &str| Ok(302), &ui, false);
    assert_eq!(
        ok.unwrap(),
        "✅ Relayed callback to local login listener. Complete login in Roo/Codex terminal."
    );
    let down = relay_login(Some(s(url)), false, || Ok(String::new()), |_u: &str| Err(s("refused")), &ui, false);
    assert!(down.unwrap_err().starts_with("Error: failed to reach local login listener: refused."));
    let status = relay_login(Some(s(url)), false, || Ok(String::new()), |_u: &str| Ok(404), &ui, false);
    assert!(status.unwrap_err().contains("http status: 404"));
    let missing = relay_login(None, false, || Ok(String::new()), |_u: &str| Ok(200), &ui, false);
    assert_eq!(missing.unwrap_err(), "Error: --url is required in non-interactive mode.");
    let typed = relay_login(None, true, || Ok(format!("  {url}\n")), |u: &str| {
        assert_eq!(u, url);
        Ok(200)
    }, &ui, false);
    assert!(typed.is_ok());
    let bad = relay_login(Some(s("http://example.com:1/auth/callback?code=a&state=b")), false, || Ok(String::new()), |_u: &str| Ok(200), &ui, false);
    assert_eq!(bad.unwrap_err(), "Error: callback URL host must be localhost or 127.0.0.1.");
}
