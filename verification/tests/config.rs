use codex_profiles::config::{
    apply_path_placeholder, codex_app_override_from_config, default_switcher_config_template,
    detect_codex_app, effective_reload_target, persist_detected_codex_app, resolve_editor_command, powershell_single_quote,
    render_switcher_config, switch_reload_target, CodexAppConfig, SwitcherConfig,
};
use codex_profiles::ide_reload::{CodexAppDiscovery, ReloadAppTarget};

#[test]
fn load_switcher_config_defaults_when_missing() {
    let config = SwitcherConfig::default_config();
    assert_eq!(config.reload.primary_target, ReloadAppTarget::Codex);
    assert!(!config.switch.reload_after_switch);
}

#[test]
fn codex_app_override_reads_config_values() {
    let config = SwitcherConfig {
        codex_app: CodexAppConfig {
            path: Some(r"C:\Apps\Codex.exe".to_string()),
            app_user_model_id: Some("OpenAI.Codex_test!App".to_string()),
        },
        ..SwitcherConfig::default_config()
    };
    let override_ = codex_app_override_from_config(&config).expect("override");
    assert_eq!(override_.executable_path.as_deref(), Some(r"C:\Apps\Codex.exe"));
    assert_eq!(override_.app_user_model_id.as_deref(), Some("OpenAI.Codex_test!App"));
}

#[test]
fn switch_reload_target_uses_config_when_enabled() {
    let mut config = SwitcherConfig::default_config();
    config.reload.primary_target = ReloadAppTarget::Cursor;
    config.switch.reload_after_switch = true;
    let target = switch_reload_target(None, Ok(config)).expect("target");
    assert_eq!(target, Some(ReloadAppTarget::Cursor));
    let target = switch_reload_target(None, Ok(SwitcherConfig::default_config())).expect("target");
    assert_eq!(target, None);
}

#[test]
fn effective_reload_target_prefers_explicit_value() {
    let target = effective_reload_target(Some(ReloadAppTarget::Cursor), Err("broken".into())).expect("target");
    assert_eq!(target, ReloadAppTarget::Cursor);
    assert_eq!(effective_reload_target(None, Err("broken".into())).unwrap_err(), "broken");
}

#[test]
fn apply_path_placeholder_rewrites_inline_path() {
    let mut parts = vec!["code".to_string(), "--goto".to_string(), "{path}:1".to_string()];
    assert!(apply_path_placeholder(&mut parts, "C:\\temp\\config.toml"));
    assert_eq!(parts[2], "C:\\temp\\config.toml:1");
    let mut parts = vec!["vi".to_string()];
    assert!(!apply_path_placeholder(&mut parts, "x"));
    assert_eq!(parts, vec!["vi".to_string()]);
}

#[test]
fn config_template_lists_every_section() {
    let text = default_switcher_config_template();
    assert!(text.starts_with("# codex-switcher configuration\n"));
    assert!(text.contains("\n[reload]\nprimary_target = \"codex\"\n"));
    assert!(text.contains("reload_after_switch = false\n"));
    assert!(text.contains("# command = \"code --wait\"\n"));
    let mut config = SwitcherConfig::default_config();
    config.editor.command = Some("  code --wait ".into());
    let text = render_switcher_config(&config);
    assert!(text.contains("\ncommand = \"code --wait\"\n"));
}

#[test]
fn detected_app_is_saved_only_when_it_changes() {
    let mut config = SwitcherConfig::default_config();
    let d = CodexAppDiscovery {
        executable_path: "C:\\A\\Codex.exe".into(),
        app_user_model_id: Some(" id ".into()),
        source: "test".into(),
    };
    assert!(persist_detected_codex_app(&mut config, &d));
    assert_eq!(config.codex_app.app_user_model_id.as_deref(), Some("id"));
    assert!(!persist_detected_codex_app(&mut config, &d));
    assert_eq!(powershell_single_quote("it's"), "it''s");
}

#[test]
fn detect_codex_app_saves_path_and_reports() {
    let mut config = SwitcherConfig::default_config();
    let discovery = CodexAppDiscovery {
        executable_path: "C:\\Apps\\Codex.exe".to_string(),
        app_user_model_id: Some("OpenAI.Codex!App".to_string()),
        source: "running process".to_string(),
    };
    let mut ui = codex_profiles::ui::Ui::new("codex-switcher");
    ui.plain = true;
    let (saved, report) = detect_codex_app(&mut config, &discovery, false, &ui, false);
    assert!(saved);
    assert_eq!(config.codex_app.path.as_deref(), Some("C:\\Apps\\Codex.exe"));
    assert_eq!(
        report,
        "✅ Detected Codex app via running process: C:\\Apps\\Codex.exe\nINFO: AppUserModelID: OpenAI.Codex!App\nINFO: Config override fields: [codex_app].path = \"C:\\Apps\\Codex.exe\"\nINFO: Saved detected Codex app path into [codex_app] in config.toml."
    );
    let (saved, report) = detect_codex_app(&mut config, &discovery, true, &ui, false);
    assert!(!saved);
    assert!(report.contains("INFO: Config already contains the detected Codex app path."));
    assert!(report.ends_with("Open a new terminal to see them in your shell."));
}

#[test]
fn resolve_editor_command_prefers_config_then_env_then_default() {
    let mut config = SwitcherConfig::default_config();
    config.editor.command = Some("  code --wait ".to_string());
    assert_eq!(
        resolve_editor_command(&config, Some("vim"), None, false).unwrap(),
        vec!["code".to_string(), "--wait".to_string()]
    );
    config.editor.command = Some("   ".to_string());
    assert_eq!(resolve_editor_command(&config, None, Some("nano -w"), false).unwrap(), vec!["nano".to_string(), "-w".to_string()]);
    assert_eq!(resolve_editor_command(&config, Some(" "), Some("nano"), false).unwrap(), vec!["vi".to_string()]);
    assert_eq!(resolve_editor_command(&config, None, None, true).unwrap(), vec!["notepad".to_string()]);
    assert_eq!(
        resolve_editor_command(&config, Some("vim 'broken"), None, false).unwrap_err(),
        "Error: could not parse editor command 'vim 'broken'."
    );
}
