use codex_profiles::ide_reload::{
    build_cursor_reload_uri, codex_app_id_from_manifest, codex_launch_target_from_package,
    default_manual_hints, detect_reload_targets, extract_xml_attribute, inspect_ide_reload,
    is_cursor_extension_process, is_standalone_codex_app_process, join_pids,
    parse_windows_command_exe, percent_encode_query_value, reload_ide_best_effort,
    reload_outcome, should_dispatch_cursor_reload, AppxPackageInfo, ReloadAppTarget,
    ReloadDetection, WindowsProcessInfo,
};

#[test]
fn ide_reload_classification_distinguishes_extension_and_standalone_app() {
    let extension = WindowsProcessInfo {
        name: "codex.exe".to_string(),
        process_id: 1,
        executable_path: Some(
            "C:\\Users\\tompski\\.cursor\\extensions\\openai.chatgpt-1\\bin\\windows-x86_64\\codex.exe"
                .to_string(),
        ),
    };
    let app = WindowsProcessInfo {
        name: "Codex.exe".to_string(),
        process_id: 2,
        executable_path: Some(
            "C:\\Program Files\\WindowsApps\\OpenAI.Codex_1\\app\\Codex.exe".to_string(),
        ),
    };

    assert!(is_cursor_extension_process(&extension));
    assert!(!is_standalone_codex_app_process(&extension));
    assert!(is_standalone_codex_app_process(&app));
    assert!(!is_cursor_extension_process(&app));
}

#[test]
fn extract_xml_attribute_reads_expected_value() {
    let xml = r#"<Package><Identity Name="OpenAI.Codex" /><Applications><Application Id="App" /></Applications></Package>"#;
    assert_eq!(
        extract_xml_attribute(xml, "Identity", "Name").as_deref(),
        Some("OpenAI.Codex")
    );
    assert_eq!(
        extract_xml_attribute(xml, "Application", "Id").as_deref(),
        Some("App")
    );
}

#[test]
fn codex_launch_target_from_package_uses_package_family_name() {
    let package = AppxPackageInfo {
        package_family_name: Some("OpenAI.Codex_2p2nqsd0c76g0".to_string()),
        install_location: Some(
            "C:\\Program Files\\WindowsApps\\OpenAI.Codex_26.304.1528.0_x64__2p2nqsd0c76g0"
                .to_string(),
        ),
    };
    let target = codex_launch_target_from_package(&package, None).expect("target");
    assert_eq!(
        target.app_user_model_id.as_deref(),
        Some("OpenAI.Codex_2p2nqsd0c76g0!App")
    );
    assert!(target.executable_path.ends_with("app\\Codex.exe"));
}

#[test]
fn build_cursor_reload_uri_targets_reload_window_command() {
    let uri = build_cursor_reload_uri();
    assert!(uri.starts_with("cursor://ionutvmi.vscode-commands-executor/runCommands?data="));
    assert!(uri.contains("workbench.action.reloadWindow"));
    assert!(uri.contains("%5B%7B"));
}

#[test]
fn parse_windows_command_exe_reads_quoted_command() {
    let path = parse_windows_command_exe(
        r#""C:\Users\tompski\AppData\Local\Programs\Cursor\Cursor.exe" "--open-url" "--" "%1""#,
    )
    .expect("parse exe");
    assert_eq!(path, r"C:\Users\tompski\AppData\Local\Programs\Cursor\Cursor.exe");
}

#[test]
fn parse_windows_command_exe_takes_first_word_unquoted() {
    assert_eq!(parse_windows_command_exe("  cursor.exe --x ").as_deref(), Some("cursor.exe"));
    assert_eq!(parse_windows_command_exe("   "), None);
    assert_eq!(parse_windows_command_exe("\"unterminated"), None);
}

#[test]
fn all_target_prioritizes_codex_over_cursor_reload() {
    assert!(!should_dispatch_cursor_reload(ReloadAppTarget::All, true));
    assert!(should_dispatch_cursor_reload(ReloadAppTarget::All, false));
    assert!(should_dispatch_cursor_reload(ReloadAppTarget::Codex, true));
    assert!(should_dispatch_cursor_reload(ReloadAppTarget::Cursor, true));
}

#[test]
fn percent_encoding_keeps_unreserved_bytes() {
    assert_eq!(percent_encode_query_value("a-Z_0.~"), "a-Z_0.~");
    assert_eq!(percent_encode_query_value("[{\"x\"}] é"), "%5B%7B%22x%22%7D%5D%20%C3%A9");
}

#[test]
fn manifest_gives_the_app_id() {
    let xml = r#"<Package><Identity Name="OpenAI.Codex" /><Applications><Application Id="App" /></Applications></Package>"#;
    assert_eq!(
        codex_app_id_from_manifest("OpenAI.Codex_26.304.1528.0_x64__2p2nqsd0c76g0", xml).as_deref(),
        Some("OpenAI.Codex_2p2nqsd0c76g0!App")
    );
    assert_eq!(codex_app_id_from_manifest("OpenAI.Codex", xml), None);
}

#[test]
fn default_hints_follow_the_target() {
    assert_eq!(default_manual_hints(ReloadAppTarget::All).len(), 3);
    assert_eq!(default_manual_hints(ReloadAppTarget::Cursor).len(), 2);
    assert_eq!(default_manual_hints(ReloadAppTarget::Codex).len(), 1);
    assert_eq!(join_pids(&[1, 22, 333]), "1, 22, 333");
}

#[test]
fn builds_without_windows_only_give_hints() {
    let outcome = reload_ide_best_effort();
    assert!(!outcome.attempted);
    assert_eq!(outcome.message, "IDE auto-reload is only implemented for Windows in this build.");
    assert_eq!(inspect_ide_reload().manual_hints.len(), 3);
}

#[test]
fn reload_outcome_reports_restart_and_dry_run() {
    let processes = vec![WindowsProcessInfo {
        name: "Codex.exe".to_string(),
        process_id: 7,
        executable_path: Some("C:\\Program Files\\WindowsApps\\OpenAI.Codex_1\\app\\Codex.exe".into()),
    }];
    let detection = detect_reload_targets(ReloadAppTarget::All, &processes);
    assert_eq!(detection.standalone_app_pids, vec![7]);
    let dry = reload_outcome(true, ReloadAppTarget::All, &detection, None, Some("override"), &vec![], &vec![], false, false);
    assert_eq!(
        dry.message,
        "Reload hint: dry run detected standalone Codex app processes (PID 7). Relaunch target is available (override)."
    );
    let done = reload_outcome(false, ReloadAppTarget::All, &detection, None, Some("override"), &vec![7], &vec![], true, false);
    assert!(done.attempted && done.restarted);
    assert_eq!(
        done.message,
        "Reload hint: restarted standalone Codex app (terminated PID 7 and launched it again)."
    );
    let nothing = ReloadDetection { cursor_detected: false, extension_detected: false, standalone_app_pids: vec![] };
    let none = reload_outcome(false, ReloadAppTarget::Cursor, &nothing, None, None, &vec![], &vec![], false, false);
    assert_eq!(
        none.message,
        "Reload hint: no supported Cursor/Codex Windows targets were detected for target 'cursor'."
    );
}
