//! The switcher's configuration file: which app is reloaded, whether switches
//! reload it, the editor command, and where the Codex app lives.
use vstd::prelude::*;

use crate::auth::opt_seq;
use crate::ide_reload::{
    target_name, trimmed_opt, CodexAppDiscovery, CodexAppOverride, ReloadAppTarget,
};
use crate::text::{chars_of, contains, contains_seq, owned, push_str, replace_seq, trim_seq};

verus! {

/// The whole configuration.
#[derive(Debug, Clone)]
pub struct SwitcherConfig {
    pub reload: ReloadConfig,
    pub switch: SwitchConfig,
    pub editor: EditorConfig,
    pub codex_app: CodexAppConfig,
}

/// `[reload]`: the app that `reload-app` reloads by default.
#[derive(Debug, Clone)]
pub struct ReloadConfig {
    pub primary_target: ReloadAppTarget,
}

/// `[switch]`: whether a switch reloads the primary target.
#[derive(Debug, Clone)]
pub struct SwitchConfig {
    pub reload_after_switch: bool,
}

/// `[editor]`: the command that edits the configuration.
#[derive(Debug, Clone)]
pub struct EditorConfig {
    pub command: Option<String>,
}

/// `[codex_app]`: an explicit Codex app path and app id.
#[derive(Debug, Clone)]
pub struct CodexAppConfig {
    pub path: Option<String>,
    pub app_user_model_id: Option<String>,
}

impl SwitcherConfig {
    /// The configuration of a missing file: reload the Codex app, no reload
    /// after a switch, no editor and no app path.
    pub fn default_config() -> (res: SwitcherConfig)
        ensures
            res.reload.primary_target == ReloadAppTarget::Codex,
            !res.switch.reload_after_switch,
            res.editor.command is None,
            res.codex_app.path is None,
            res.codex_app.app_user_model_id is None,
    {
        SwitcherConfig {
            reload: ReloadConfig { primary_target: ReloadAppTarget::Codex },
            switch: SwitchConfig { reload_after_switch: false },
            editor: EditorConfig { command: None },
            codex_app: CodexAppConfig { path: None, app_user_model_id: None },
        }
    }
}

/// The reload target in effect: the one asked for, else the configured one.
/// Without an explicit target, a configuration that could not be read is an
/// error.
pub fn effective_reload_target(
    explicit_target: Option<ReloadAppTarget>,
    config: Result<SwitcherConfig, String>,
) -> (res: Result<ReloadAppTarget, String>)
    ensures
        match explicit_target {
            Some(t) => res == Ok::<ReloadAppTarget, String>(t),
            None => match config {
                Ok(c) => res == Ok::<ReloadAppTarget, String>(c.reload.primary_target),
                Err(e) => res == Err::<ReloadAppTarget, String>(e),
            },
        },
{
    if let Some(t) = explicit_target {
        return Ok(t);
    }
    match config {
        Ok(c) => Ok(c.reload.primary_target),
        Err(e) => Err(e),
    }
}

/// The target reloaded after a switch: the one asked for, else the primary
/// target where the configuration turns reloading on, else none.
pub fn switch_reload_target(
    explicit_target: Option<ReloadAppTarget>,
    config: Result<SwitcherConfig, String>,
) -> (res: Result<Option<ReloadAppTarget>, String>)
    ensures
        match explicit_target {
            Some(t) => res == Ok::<Option<ReloadAppTarget>, String>(Some(t)),
            None => match config {
                Ok(c) => res == Ok::<Option<ReloadAppTarget>, String>(
                    if c.switch.reload_after_switch {
                        Some(c.reload.primary_target)
                    } else {
                        None
                    },
                ),
                Err(e) => res == Err::<Option<ReloadAppTarget>, String>(e),
            },
        },
{
    if explicit_target.is_some() {
        return Ok(explicit_target);
    }
    match config {
        Ok(c) => Ok(
            if c.switch.reload_after_switch {
                Some(c.reload.primary_target)
            } else {
                None
            },
        ),
        Err(e) => Err(e),
    }
}

fn trimmed(o: &Option<String>) -> (res: Option<String>)
    ensures
        opt_seq(res) == trimmed_opt(*o),
{
    match o {
        Some(s) => {
            let t = crate::text::trim_str(s.as_str());
            if t.as_str().is_empty() {
                None
            } else {
                Some(t)
            }
        },
        None => None,
    }
}

/// Whether an override is the one a configuration gives: its trimmed path
/// and app id, where either is set.
pub open spec fn override_of(o: Option<CodexAppOverride>, c: SwitcherConfig) -> bool {
    let p = trimmed_opt(c.codex_app.path);
    let a = trimmed_opt(c.codex_app.app_user_model_id);
    if p is None && a is None {
        o is None
    } else {
        o matches Some(ov) && opt_seq(ov.executable_path) == p && opt_seq(ov.app_user_model_id) == a
    }
}

/// The app override that the configuration gives: its trimmed path and app
/// id, where either is set.
pub fn codex_app_override_from_config(config: &SwitcherConfig) -> (res: Option<CodexAppOverride>)
    ensures
        override_of(res, *config),
{
    let executable_path = trimmed(&config.codex_app.path);
    let app_user_model_id = trimmed(&config.codex_app.app_user_model_id);
    if executable_path.is_some() || app_user_model_id.is_some() {
        Some(CodexAppOverride { executable_path, app_user_model_id })
    } else {
        None
    }
}

/// The app override of a configuration that was read (or the message under
/// which reading it failed).
pub fn codex_app_override(config: Result<SwitcherConfig, String>) -> (res: Result<
    Option<CodexAppOverride>,
    String,
>)
    ensures
        match config {
            Err(e) => res == Err::<Option<CodexAppOverride>, String>(e),
            Ok(c) => res matches Ok(o) && override_of(o, c),
        },
{
    match config {
        Ok(c) => Ok(codex_app_override_from_config(&c)),
        Err(e) => Err(e),
    }
}

/// Takes a detected Codex app into the configuration where it differs from
/// the configured one; says whether it changed (and so must be saved).
pub fn persist_detected_codex_app(config: &mut SwitcherConfig, discovery: &CodexAppDiscovery) -> (res:
    bool)
    ensures
        ({
            let changed = trimmed_opt(old(config).codex_app.path) != Some(
                discovery.executable_path@,
            ) || trimmed_opt(old(config).codex_app.app_user_model_id) != trimmed_opt(
                discovery.app_user_model_id,
            );
            &&& res == changed
            &&& !changed ==> *final(config) == *old(config)
            &&& changed ==> opt_seq(final(config).codex_app.path) == Some(discovery.executable_path@)
                && opt_seq(final(config).codex_app.app_user_model_id) == trimmed_opt(
                discovery.app_user_model_id,
            ) && final(config).reload == old(config).reload && final(config).switch == old(
                config,
            ).switch && final(config).editor == old(config).editor
        }),
{
    let current_path = trimmed(&config.codex_app.path);
    let current_aumid = trimmed(&config.codex_app.app_user_model_id);
    let detected_aumid = trimmed(&discovery.app_user_model_id);
    let same_path = match &current_path {
        Some(p) => crate::text::str_eq(p.as_str(), discovery.executable_path.as_str()),
        None => false,
    };
    let same_aumid = match (&current_aumid, &detected_aumid) {
        (Some(a), Some(b)) => crate::text::str_eq(a.as_str(), b.as_str()),
        (None, None) => true,
        _ => false,
    };
    if same_path && same_aumid {
        return false;
    }
    config.codex_app.path = Some(discovery.executable_path.clone());
    config.codex_app.app_user_model_id = detected_aumid;
    true
}

/// The report of a detected Codex app, line by line, without color: where
/// it was found, its AppUserModelID where it has one, the config field to
/// override it, whether it was saved, and where asked, that the user
/// environment variables were written.
pub open spec fn detect_report_lines(d: CodexAppDiscovery, saved: bool, write_env: bool, plain: bool) -> Seq<
    Seq<char>,
> {
    let head = seq!["✅ "@ + ("Detected Codex app via "@ + d.source@ + ": "@ + d.executable_path@)];
    let aumid = match d.app_user_model_id {
        Some(a) => seq![crate::ui::hint_text("AppUserModelID: "@ + a@, plain)],
        None => Seq::empty(),
    };
    let fields = seq![
        crate::ui::hint_text(
            "Config override fields: [codex_app].path = \""@ + d.executable_path@ + "\""@,
            plain,
        ),
        crate::ui::hint_text(
            if saved {
                "Saved detected Codex app path into [codex_app] in config.toml."@
            } else {
                "Config already contains the detected Codex app path."@
            },
            plain,
        ),
    ];
    let env = if write_env {
        seq![crate::ui::hint_text(env_written_text(), plain)]
    } else {
        Seq::empty()
    };
    head + aumid + fields + env
}

/// The note that the user environment variables were written.
pub open spec fn env_written_text() -> Seq<char> {
    "Wrote user env vars CODEX_SWITCHER_CODEX_APP_PATH / CODEX_PROFILES_CODEX_APP_PATH and, when available, matching *_AUMID vars. Open a new terminal to see them in your shell."@
}

/// Report lines on a colour terminal: the first in the action style and the
/// others in the hint style, each with the text of the report line without
/// colour.
pub open spec fn report_lines_colored(ls: Seq<Seq<char>>, report: Seq<Seq<char>>) -> bool {
    &&& ls.len() == report.len()
    &&& report.len() > 0
    &&& crate::ui::styled_as(ls[0], report[0], crate::ui::paint_prefix(crate::ui::Paint::GreenBold))
    &&& forall|i: int|
        1 <= i < ls.len() ==> crate::ui::styled_as(
            #[trigger] ls[i],
            report[i],
            crate::ui::paint_prefix(crate::ui::Paint::Italic),
        )
}

/// A report on a colour terminal: its styled lines joined by newlines.
pub open spec fn report_colored(res: Seq<char>, report: Seq<Seq<char>>) -> bool {
    exists|ls: Seq<Seq<char>>|
        #![trigger report_lines_colored(ls, report)]
        res == crate::ui::join_lines(ls) && report_lines_colored(ls, report)
}

proof fn lemma_report_push(ls: Seq<Seq<char>>, report: Seq<Seq<char>>, x: Seq<char>, t: Seq<char>)
    requires
        report_lines_colored(ls, report),
        crate::ui::styled_as(x, t, crate::ui::paint_prefix(crate::ui::Paint::Italic)),
    ensures
        report_lines_colored(ls.push(x), report.push(t)),
{
    assert forall|i: int| 1 <= i < ls.len() + 1 implies crate::ui::styled_as(
        #[trigger] ls.push(x)[i],
        report.push(t)[i],
        crate::ui::paint_prefix(crate::ui::Paint::Italic),
    ) by {
        if i < ls.len() {
            assert(ls.push(x)[i] == ls[i]);
        }
    }
}

/// Takes a detected Codex app into the configuration and builds the report.
/// Says whether the configuration changed (and so must be saved); writing it
/// and the user environment variables is left to the caller.
pub fn detect_codex_app(
    config: &mut SwitcherConfig,
    discovery: &CodexAppDiscovery,
    write_env: bool,
    ui: &crate::ui::Ui,
    use_color: bool,
) -> (res: (bool, String))
    ensures
        ({
            let changed = trimmed_opt(old(config).codex_app.path) != Some(
                discovery.executable_path@,
            ) || trimmed_opt(old(config).codex_app.app_user_model_id) != trimmed_opt(
                discovery.app_user_model_id,
            );
            &&& res.0 == changed
            &&& !changed ==> *final(config) == *old(config)
            &&& changed ==> opt_seq(final(config).codex_app.path) == Some(discovery.executable_path@)
                && opt_seq(final(config).codex_app.app_user_model_id) == trimmed_opt(
                discovery.app_user_model_id,
            ) && final(config).reload == old(config).reload && final(config).switch == old(
                config,
            ).switch && final(config).editor == old(config).editor
        }),
        !use_color || ui.plain ==> res.1@ == crate::ui::join_lines(
            detect_report_lines(*discovery, res.0, write_env, ui.plain),
        ),
        use_color && !ui.plain ==> report_colored(
            res.1@,
            detect_report_lines(*discovery, res.0, write_env, false),
        ),
{
    let saved = persist_detected_codex_app(config, discovery);
    let mut lines: Vec<String> = Vec::new();
    let mut head = owned("Detected Codex app via ");
    push_str(&mut head, discovery.source.as_str());
    push_str(&mut head, ": ");
    push_str(&mut head, discovery.executable_path.as_str());
    lines.push(ui.format_action(head.as_str(), use_color));
    let ghost colored = use_color && !ui.plain;
    let ghost mut rep: Seq<Seq<char>> = seq!["✅ "@ + ("Detected Codex app via "@ + discovery.source@ + ": "@ + discovery.executable_path@)];
    assert(colored ==> report_lines_colored(crate::priority_table::strs(lines@), rep));
    let ghost plain_view = !use_color || ui.plain;
    let ghost l0 = crate::priority_table::strs(lines@);
    assert(plain_view ==> l0 =~= seq!["✅ "@ + ("Detected Codex app via "@ + discovery.source@ + ": "@ + discovery.executable_path@)]);
    match &discovery.app_user_model_id {
        Some(a) => {
            let mut t = owned("AppUserModelID: ");
            push_str(&mut t, a.as_str());
            let h = ui.format_hint(t.as_str(), use_color);
            proof {
                if colored {
                    lemma_report_push(crate::priority_table::strs(lines@), rep, h@, crate::ui::hint_text(t@, false));
                    assert(crate::priority_table::strs(lines@).push(h@) =~= crate::priority_table::strs(lines@.push(h)));
                }
                rep = rep.push(crate::ui::hint_text(t@, false));
            }
            lines.push(h);
        },
        None => {},
    }
    let ghost l1 = crate::priority_table::strs(lines@);
    assert(plain_view ==> l1 =~= l0 + match discovery.app_user_model_id {
        Some(a) => seq![crate::ui::hint_text("AppUserModelID: "@ + a@, ui.plain)],
        None => Seq::<Seq<char>>::empty(),
    });
    let mut f = owned("Config override fields: [codex_app].path = \"");
    push_str(&mut f, discovery.executable_path.as_str());
    push_str(&mut f, "\"");
    let h = ui.format_hint(f.as_str(), use_color);
    proof {
        if colored {
            lemma_report_push(crate::priority_table::strs(lines@), rep, h@, crate::ui::hint_text(f@, false));
            assert(crate::priority_table::strs(lines@).push(h@) =~= crate::priority_table::strs(lines@.push(h)));
        }
        rep = rep.push(crate::ui::hint_text(f@, false));
    }
    lines.push(h);
    let note = if saved {
        "Saved detected Codex app path into [codex_app] in config.toml."
    } else {
        "Config already contains the detected Codex app path."
    };
    let h = ui.format_hint(note, use_color);
    proof {
        if colored {
            lemma_report_push(crate::priority_table::strs(lines@), rep, h@, crate::ui::hint_text(note@, false));
            assert(crate::priority_table::strs(lines@).push(h@) =~= crate::priority_table::strs(lines@.push(h)));
        }
        rep = rep.push(crate::ui::hint_text(note@, false));
    }
    lines.push(h);
    let ghost l2 = crate::priority_table::strs(lines@);
    assert(plain_view ==> l2 =~= l1 + seq![
        crate::ui::hint_text(
            "Config override fields: [codex_app].path = \""@ + discovery.executable_path@ + "\""@,
            ui.plain,
        ),
        crate::ui::hint_text(
            if saved {
                "Saved detected Codex app path into [codex_app] in config.toml."@
            } else {
                "Config already contains the detected Codex app path."@
            },
            ui.plain,
        ),
    ]);
    if write_env {
        let h = ui.format_hint(
            "Wrote user env vars CODEX_SWITCHER_CODEX_APP_PATH / CODEX_PROFILES_CODEX_APP_PATH and, when available, matching *_AUMID vars. Open a new terminal to see them in your shell.",
            use_color,
        );
        proof {
            if colored {
                lemma_report_push(crate::priority_table::strs(lines@), rep, h@, crate::ui::hint_text(env_written_text(), false));
                assert(crate::priority_table::strs(lines@).push(h@) =~= crate::priority_table::strs(lines@.push(h)));
            }
            rep = rep.push(crate::ui::hint_text(env_written_text(), false));
        }
        lines.push(h);
    }
    let out = crate::priority_table::join_newline(&lines);
    proof {
        if !use_color || ui.plain {
            assert(crate::priority_table::strs(lines@) =~= detect_report_lines(
                *discovery,
                saved,
                write_env,
                ui.plain,
            ));
        } else {
            assert(rep =~= detect_report_lines(*discovery, saved, write_env, false));
            assert(report_lines_colored(crate::priority_table::strs(lines@), rep));
        }
    }
    (saved, out)
}

/// The configured Codex app override, after making sure the configuration
/// names the app: where the configured path is a file it is kept; otherwise
/// the app found by discovery is taken into the configuration. Also says
/// whether the configuration changed and must be saved.
pub fn ensure_codex_app_override(
    config: &mut SwitcherConfig,
    configured_path_is_file: bool,
    discovery: Result<CodexAppDiscovery, String>,
) -> (res: Result<(Option<CodexAppOverride>, bool), String>)
    ensures
        configured_path_is_file && trimmed_opt(old(config).codex_app.path) is Some ==> (res matches Ok(
            (o, changed),
        ) && !changed && *final(config) == *old(config) && override_of(o, *old(config))),
        !(configured_path_is_file && trimmed_opt(old(config).codex_app.path) is Some) ==> match discovery {
            Err(e) => res == Err::<(Option<CodexAppOverride>, bool), String>(e) && *final(config)
                == *old(config),
            Ok(d) => res matches Ok((o, changed)) && override_of(o, *final(config)) && changed == (
            trimmed_opt(old(config).codex_app.path) != Some(d.executable_path@) || trimmed_opt(
                old(config).codex_app.app_user_model_id,
            ) != trimmed_opt(d.app_user_model_id)) && (changed ==> opt_seq(
                final(config).codex_app.path,
            ) == Some(d.executable_path@)),
        },
{
    let has_path = trimmed(&config.codex_app.path).is_some();
    if configured_path_is_file && has_path {
        return Ok((codex_app_override_from_config(config), false));
    }
    let d = match discovery {
        Ok(d) => d,
        Err(e) => return Err(e),
    };
    let changed = persist_detected_codex_app(config, &d);
    Ok((codex_app_override_from_config(config), changed))
}

// ---------------------------------------------------------------------------
// Rendering the file
// ---------------------------------------------------------------------------

/// What `{:?}` renders for a string: the TOML basic string that quotes it.
pub uninterp spec fn debug_str(s: Seq<char>) -> Seq<char>;

/// Whether a text is rendered by `{:?}` as itself between double quotes:
/// printable ASCII without `"` and `\`.
pub open spec fn plain_quotable(s: Seq<char>) -> bool {
    forall|i: int| 0 <= i < s.len() ==> ' ' <= #[trigger] s[i] && s[i] <= '~' && s[i] != '"' && s[i]
        != '\\'
}

/// Renders a string with `{:?}` (`<str as Debug>::fmt`). Trusted: the result
/// is the name `debug_str` of the text, and, as the documentation of
/// `char::escape_debug` gives it, printable ASCII text without quotes and
/// backslashes is only put between double quotes.
#[verifier::external_body]
fn toml_basic_string(value: &str) -> (res: String)
    ensures
        res@ == debug_str(value@),
        plain_quotable(value@) ==> res@ == seq!['"'] + value@ + seq!['"'],
{
    format!("{value:?}")
}

/// The name of a target in the configuration file.
pub fn reload_target_name(target: ReloadAppTarget) -> (res: &'static str)
    ensures
        res@ == target_name(target),
{
    target.label()
}

/// A setting line `key = "value"` where the trimmed value is set, else the
/// commented example.
pub open spec fn optional_line(key: Seq<char>, value: Option<String>, example: Seq<char>) -> Seq<
    char,
> {
    match trimmed_opt(value) {
        Some(v) => key + " = "@ + debug_str(v) + "\n"@,
        None => example,
    }
}

/// The configuration file for a configuration, with its comments.
pub open spec fn config_text(c: SwitcherConfig) -> Seq<char> {
    "# codex-switcher configuration\n"@
        + "# This file is stored next to your saved profiles index.\n"@ + "#\n"@
        + "# reload.primary_target controls the default target for `reload-app`\n"@
        + "# and for auto-reload after `switch` when enabled below.\n"@ + "\n[reload]\n"@
        + "primary_target = "@ + debug_str(target_name(c.reload.primary_target)) + "\n"@
        + "\n[switch]\n"@ + "reload_after_switch = "@ + (if c.switch.reload_after_switch {
        "true"@
    } else {
        "false"@
    }) + "\n"@ + "\n[editor]\n"@ + "# Optional editor command for `codex-switcher config edit`.\n"@
        + "# Examples: \"code --wait\", \"cursor --wait\", \"notepad\"\n"@ + optional_line(
        "command"@,
        c.editor.command,
        "# command = \"code --wait\"\n"@,
    ) + "\n[codex_app]\n"@ + "# Optional explicit path to standalone Codex.exe\n"@ + optional_line(
        "path"@,
        c.codex_app.path,
        "# path = \"C:\\\\Program Files\\\\WindowsApps\\\\OpenAI.Codex_...\\\\app\\\\Codex.exe\"\n"@,
    ) + "# Optional explicit AppUserModelID for AppsFolder relaunch\n"@ + optional_line(
        "app_user_model_id"@,
        c.codex_app.app_user_model_id,
        "# app_user_model_id = \"OpenAI.Codex_xxxxx!App\"\n"@,
    )
}

fn push_optional_line(out: &mut String, key: &str, value: &Option<String>, example: &str)
    ensures
        final(out)@ == old(out)@ + optional_line(key@, *value, example@),
{
    match trimmed(value) {
        Some(v) => {
            push_str(out, key);
            push_str(out, " = ");
            push_str(out, toml_basic_string(v.as_str()).as_str());
            push_str(out, "\n");
        },
        None => push_str(out, example),
    }
}

/// The text of the configuration file.
pub fn render_switcher_config(config: &SwitcherConfig) -> (res: String)
    ensures
        res@ == config_text(*config),
{
    let mut out = owned("# codex-switcher configuration\n");
    push_str(&mut out, "# This file is stored next to your saved profiles index.\n");
    push_str(&mut out, "#\n");
    push_str(&mut out, "# reload.primary_target controls the default target for `reload-app`\n");
    push_str(&mut out, "# and for auto-reload after `switch` when enabled below.\n");
    push_str(&mut out, "\n[reload]\n");
    push_str(&mut out, "primary_target = ");
    push_str(
        &mut out,
        toml_basic_string(reload_target_name(config.reload.primary_target)).as_str(),
    );
    push_str(&mut out, "\n");
    push_str(&mut out, "\n[switch]\n");
    push_str(&mut out, "reload_after_switch = ");
    push_str(
        &mut out,
        if config.switch.reload_after_switch {
            "true"
        } else {
            "false"
        },
    );
    push_str(&mut out, "\n");
    push_str(&mut out, "\n[editor]\n");
    push_str(&mut out, "# Optional editor command for `codex-switcher config edit`.\n");
    push_str(&mut out, "# Examples: \"code --wait\", \"cursor --wait\", \"notepad\"\n");
    push_optional_line(&mut out, "command", &config.editor.command, "# command = \"code --wait\"\n");
    push_str(&mut out, "\n[codex_app]\n");
    push_str(&mut out, "# Optional explicit path to standalone Codex.exe\n");
    push_optional_line(
        &mut out,
        "path",
        &config.codex_app.path,
        "# path = \"C:\\\\Program Files\\\\WindowsApps\\\\OpenAI.Codex_...\\\\app\\\\Codex.exe\"\n",
    );
    push_str(&mut out, "# Optional explicit AppUserModelID for AppsFolder relaunch\n");
    push_optional_line(
        &mut out,
        "app_user_model_id",
        &config.codex_app.app_user_model_id,
        "# app_user_model_id = \"OpenAI.Codex_xxxxx!App\"\n",
    );
    out
}

/// The file written where no configuration exists yet.
pub fn default_switcher_config_template() -> (res: String)
    ensures
        res@ == config_text(
            SwitcherConfig {
                reload: ReloadConfig { primary_target: ReloadAppTarget::Codex },
                switch: SwitchConfig { reload_after_switch: false },
                editor: EditorConfig { command: None },
                codex_app: CodexAppConfig { path: None, app_user_model_id: None },
            },
        ),
{
    render_switcher_config(&SwitcherConfig::default_config())
}

// ---------------------------------------------------------------------------
// The editor command
// ---------------------------------------------------------------------------

/// What `shlex::split` returns for a text: its words, or none where the text
/// cannot be split (an unclosed quote, a trailing backslash).
pub uninterp spec fn shlex_words(text: Seq<char>) -> Option<Seq<Seq<char>>>;

/// Calls `shlex::split`. Trusted: the result is the name `shlex_words` of the
/// text, with the words taken as texts.
#[verifier::external_body]
fn shell_split(text: &str) -> (res: Option<Vec<String>>)
    ensures
        match res {
            Some(v) => shlex_words(text@) == Some(crate::strmap::texts_view(v@)),
            None => shlex_words(text@) is None,
        },
{
    shlex::split(text)
}

/// A setting that is not blank, trimmed.
pub open spec fn non_blank(v: Option<Seq<char>>) -> Option<Seq<char>> {
    match v {
        Some(t) => if trim_seq(t).len() > 0 {
            Some(trim_seq(t))
        } else {
            None
        },
        None => None,
    }
}

/// The editor command line before it is split: the configured command where
/// it is not blank; else `VISUAL` (or, where that is unset, `EDITOR`) where it
/// is not blank; else `notepad` on Windows and `vi` elsewhere.
pub open spec fn editor_text(
    configured: Option<Seq<char>>,
    visual: Option<Seq<char>>,
    editor: Option<Seq<char>>,
    is_windows: bool,
) -> Seq<char> {
    let env = match visual {
        Some(v) => Some(v),
        None => editor,
    };
    match non_blank(configured) {
        Some(t) => t,
        None => match non_blank(env) {
            Some(e) => e,
            None => if is_windows {
                "notepad"@
            } else {
                "vi"@
            },
        },
    }
}

fn non_blank_exec(v: Option<&str>) -> (res: Option<String>)
    ensures
        opt_seq(res) == non_blank(crate::migrate::opt_str(v)),
{
    match v {
        Some(t) => {
            let trimmed = crate::text::trim_str(t);
            if trimmed.as_str().is_empty() {
                None
            } else {
                Some(trimmed)
            }
        },
        None => None,
    }
}

/// The editor command as words: the command line chosen as `editor_text`
/// says, split as a shell would; an error where it cannot be split or has no
/// words.
pub fn resolve_editor_command(
    config: &SwitcherConfig,
    visual: Option<&str>,
    editor: Option<&str>,
    is_windows: bool,
) -> (res: Result<Vec<String>, String>)
    ensures
        ({
            let raw = editor_text(
                opt_seq(config.editor.command),
                crate::migrate::opt_str(visual),
                crate::migrate::opt_str(editor),
                is_windows,
            );
            match shlex_words(raw) {
                Some(w) => if w.len() > 0 {
                    res matches Ok(v) && crate::strmap::texts_view(v@) == w
                } else {
                    res matches Err(e) && e@ == "Error: could not parse editor command '"@ + raw + "'."@
                },
                None => res matches Err(e) && e@ == "Error: could not parse editor command '"@ + raw
                    + "'."@,
            }
        }),
{
    let configured = match &config.editor.command {
        Some(c) => non_blank_exec(Some(c.as_str())),
        None => None,
    };
    let env = match visual {
        Some(v) => Some(v),
        None => editor,
    };
    let raw = match configured {
        Some(t) => t,
        None => match non_blank_exec(env) {
            Some(e) => e,
            None => if is_windows {
                owned("notepad")
            } else {
                owned("vi")
            },
        },
    };
    proof {
        reveal_strlit("notepad");
        reveal_strlit("vi");
    }
    match shell_split(raw.as_str()) {
        Some(words) => {
            if words.len() > 0 {
                return Ok(words);
            }
        },
        None => {},
    }
    let mut e = owned("Error: could not parse editor command '");
    push_str(&mut e, raw.as_str());
    push_str(&mut e, "'.");
    Err(e)
}

/// Replaces `{path}` in every part with the path; says whether any part held
/// it.
pub fn apply_path_placeholder(parts: &mut Vec<String>, path: &str) -> (res: bool)
    ensures
        final(parts).len() == old(parts).len(),
        forall|i: int|
            0 <= i < old(parts).len() ==> (#[trigger] final(parts)@[i])@ == replace_seq(
                old(parts)@[i]@,
                "{path}"@,
                path@,
            ),
        res == exists|i: int| 0 <= i < old(parts).len() && contains_seq(
            (#[trigger] old(parts)@[i])@,
            "{path}"@,
        ),
{
    let ghost orig = parts@;
    let mut replaced = false;
    let mut i: usize = 0;
    proof {
        reveal_strlit("{path}");
    }
    while i < parts.len()
        invariant
            i <= parts.len(),
            parts.len() == orig.len(),
            "{path}"@.len() > 0,
            forall|j: int| 0 <= j < i ==> (#[trigger] parts@[j])@ == replace_seq(
                orig[j]@,
                "{path}"@,
                path@,
            ),
            forall|j: int| i <= j < parts.len() ==> #[trigger] parts@[j] == orig[j],
            replaced == exists|j: int| 0 <= j < i && contains_seq((#[trigger] orig[j])@, "{path}"@),
        decreases parts.len() - i,
    {
        let found = contains(&chars_of(parts[i].as_str()), &chars_of("{path}"));
        let updated = crate::text::replace_str(parts[i].as_str(), "{path}", path);
        proof {
            if !found {
                crate::text::lemma_replace_absent(orig[i as int]@, "{path}"@, path@);
            }
        }
        parts.set(i, updated);
        if found {
            replaced = true;
        }
        i = i + 1;
    }
    replaced
}

/// `value.replace('\'', "''")`: single quotes doubled for PowerShell.
pub fn powershell_single_quote(value: &str) -> (res: String)
    ensures
        res@ == replace_seq(value@, seq!['\''], seq!['\'', '\'']),
{
    proof {
        reveal_strlit("'");
        reveal_strlit("''");
    }
    let out = crate::text::replace_str(value, "'", "''");
    assert("'"@ =~= seq!['\'']);
    assert("''"@ =~= seq!['\'', '\'']);
    out
}

} // verus!
