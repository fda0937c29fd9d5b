use codex_profiles::ui::{format_error, indent_output, normalize_error, Ui, CANCELLED_MESSAGE};

fn ui() -> Ui {
    Ui::new("codex-profiles")
}

#[test]
fn plain_toggle_affects_output() {
    let mut ui = ui();
    {
        ui.set_plain(true);
        assert!(ui.is_plain());
        let warning = ui.format_warning("oops", false);
        assert!(warning.contains("WARNING"));
        ui.set_plain(false);
    }
    assert!(!ui.is_plain());
}

#[test]
fn terminal_width_parses_columns() {
    let ui = ui();
    assert_eq!(ui.terminal_width(Some("80")), Some(80));
}

#[test]
fn terminal_width_none_when_plain() {
    let mut ui = ui();
    ui.set_plain(true);
    assert_eq!(ui.terminal_width(Some("80")), None);
}

#[test]
fn supports_color_respects_no_color() {
    let ui = ui();
    assert!(!ui.use_color_stdout(true));
    assert!(!ui.use_color_stderr(true));
}

#[test]
fn format_helpers_basic() {
    let ui = ui();
    let cmd = ui.format_cmd("codex login", false);
    assert!(cmd.contains("codex login"));
    let action = ui.format_action("done", false);
    assert!(action.contains("done"));
    let hint = ui.format_hint("hint", false);
    assert!(hint.contains("hint"));
    let cancel = ui.format_cancel(false);
    assert_eq!(cancel, CANCELLED_MESSAGE);
}

#[test]
fn format_no_profiles_and_save_before_load() {
    let ui = ui();
    let msg = ui.format_no_profiles(false, false);
    assert!(msg.contains("No saved profiles"));
    let msg = ui.format_save_before_load(false, false);
    assert!(msg.contains("save"));
}

#[test]
fn format_unsaved_warning_plain() {
    let lines = ui().format_unsaved_warning(false);
    assert_eq!(lines.len(), 2);
    assert!(lines[0].contains("WARNING"));
}

#[test]
fn normalize_error_variants() {
    assert_eq!(
        normalize_error("Error: Codex auth file not found. Run `codex login` first."),
        "Not logged in. Run `codex login`."
    );
    assert_eq!(
        normalize_error("Error: invalid JSON in auth.json: oops. Run `codex login` to regenerate it."),
        "Auth file is invalid. Run `codex login`."
    );
    assert_eq!(
        normalize_error(
            "Error: auth.json is missing tokens.account_id. Run `codex login` to reauthenticate."
        ),
        "Auth is incomplete. Run `codex login`."
    );
    assert_eq!(normalize_error("other"), "other");
}

#[test]
fn format_error_plain() {
    let err = format_error("oops", false);
    assert!(err.contains("Error:"));
    assert_eq!(err, "Error: oops");
}

#[test]
fn format_profile_display_variants() {
    let ui = ui();
    let key = ui.format_profile_display(
        Some("Key".to_string()),
        Some("Key".to_string()),
        Some("label".to_string()),
        false,
        false,
    );
    assert!(key.to_lowercase().contains("key"));
    assert_eq!(key, "[KEY] (label)");
    let display = ui.format_profile_display(
        Some("me@example.com".to_string()),
        Some("Free".to_string()),
        None,
        true,
        false,
    );
    assert!(display.contains("me@example.com"));
    assert_eq!(display, "[FREE] me@example.com");
    let unknown = ui.format_profile_display(None, None, None, false, false);
    assert!(unknown.contains("Unknown"));
}

#[test]
fn format_entry_header_and_separator() {
    let ui = ui();
    let header = ui.format_entry_header("Display", "1d", false, false);
    assert!(header.contains("Display"));
    assert_eq!(header, "Display (1d)");
    assert_eq!(ui.format_entry_header("Display", "Unknown", false, false), "Display");
    let indented = indent_output("line\n\nline2");
    assert!(indented.contains("line2"));
    assert_eq!(indented, " line\n\n line2");
}

#[test]
fn format_command_uses_name() {
    let cmd = ui().format_command("list", false);
    assert!(cmd.contains("list"));
    assert_eq!(cmd, "`codex-profiles list`");
}

#[test]
fn save_hints_name_the_commands() {
    let ui = ui();
    assert_eq!(
        ui.format_save_before_load(true, false),
        "\n\nRun `codex-profiles save` before loading."
    );
    assert_eq!(
        ui.format_save_before_load(false, false),
        "\n\nRun `codex login`, then `codex-profiles save` before loading."
    );
    let mut plain = Ui::new("cp");
    plain.set_plain(true);
    assert_eq!(plain.format_list_hint(false), "INFO: Run `cp list` to see saved profiles.");
    assert_eq!(plain.format_warning("x", false), "WARNING: x");
    assert_eq!(ui.format_warning("x", false), "Warning: x");
}

#[test]
fn output_block_indents_unless_plain() {
    let mut ui = ui();
    assert_eq!(ui.output_block("a\r\nb"), "\n a\n b\n");
    ui.set_plain(true);
    assert_eq!(ui.output_block("a\nb"), "\na\nb\n");
}
