//! The commands of the desktop shell: their requests, their answers, and
//! the checks made before the shared service is asked.
use crate::ide_reload::ReloadAppTarget;
use crate::text::{lower_seq, owned, str_eq, to_ascii_lowercase, trim_seq, trim_str};
use vstd::prelude::*;

verus! {

/// A request to preview a switch to a profile.
#[derive(Clone, Debug, PartialEq, Eq)]
pub struct SwitchPreviewRequest {
    pub profile_label: String,
}

/// A request to switch to a profile.
#[derive(Clone, Debug, PartialEq, Eq)]
pub struct SwitchExecuteRequest {
    pub profile_label: String,
}

/// An app that the desktop shell can reload.
#[derive(Clone, Debug, PartialEq, Eq)]
pub struct ReloadTargetInfo {
    pub id: String,
    pub label: String,
    pub description: String,
}

/// The apps that the desktop shell can reload.
#[derive(Clone, Debug, PartialEq, Eq)]
pub struct ReloadTargetsPayload {
    pub targets: Vec<ReloadTargetInfo>,
    pub last_reloaded: String,
}

/// A request to reload an app.
#[derive(Clone, Debug, PartialEq, Eq)]
pub struct ReloadTargetRequest {
    pub target: String,
}

/// What the smoke-test automation records of the window.
#[derive(Clone, Debug, PartialEq, Eq)]
pub struct SmokeTraceSnapshot {
    pub phase: String,
    pub view: String,
    pub active_profile: Option<String>,
    pub selected_label: Option<String>,
    pub profile_count: usize,
    pub refresh_count: usize,
    pub event: String,
}

/// Why a desktop command failed.
#[derive(Clone, Debug, PartialEq, Eq)]
pub struct DesktopCommandError {
    pub code: String,
    pub message: String,
    pub retryable: bool,
}

/// A desktop command's answer on success.
#[derive(Clone, Debug, PartialEq, Eq)]
pub struct CommandSuccess<T> {
    pub ok: bool,
    pub data: T,
}

/// A desktop command's answer on failure.
#[derive(Clone, Debug, PartialEq, Eq)]
pub struct CommandFailure {
    pub ok: bool,
    pub error: DesktopCommandError,
}

/// A desktop command's answer.
#[derive(Clone, Debug, PartialEq, Eq)]
pub enum DesktopCommandResult<T> {
    Success(CommandSuccess<T>),
    Failure(CommandFailure),
}

impl<T> DesktopCommandResult<T> {
    /// A successful answer with its data.
    pub fn ok(data: T) -> (res: Self)
        ensures
            res matches DesktopCommandResult::Success(s) && s.ok && s.data == data,
    {
        DesktopCommandResult::Success(CommandSuccess { ok: true, data })
    }

    /// A failed answer with its code, message and whether a retry may help.
    pub fn err(code: &str, message: &str, retryable: bool) -> (res: Self)
        ensures
            res matches DesktopCommandResult::Failure(f) && !f.ok && f.error.code@ == code@
                && f.error.message@ == message@ && f.error.retryable == retryable,
    {
        DesktopCommandResult::Failure(
            CommandFailure {
                ok: false,
                error: DesktopCommandError {
                    code: owned(code),
                    message: owned(message),
                    retryable,
                },
            },
        )
    }
}

/// Whether a setting turns a mode on: trimmed and in ASCII lowercase, it is
/// `1`, `true`, `yes` or `on`.
pub open spec fn flag_on(value: Option<Seq<char>>) -> bool {
    match value {
        Some(v) => {
            let w = lower_seq(trim_seq(v));
            w == "1"@ || w == "true"@ || w == "yes"@ || w == "on"@
        },
        None => false,
    }
}

/// Whether a setting turns a mode on.
pub fn env_flag(value: Option<&str>) -> (res: bool)
    ensures
        res == flag_on(
            match value {
                Some(v) => Some(v@),
                None => None,
            },
        ),
{
    match value {
        Some(v) => {
            let t = trim_str(v);
            let w = to_ascii_lowercase(t.as_str());
            str_eq(w.as_str(), "1") || str_eq(w.as_str(), "true") || str_eq(w.as_str(), "yes")
                || str_eq(w.as_str(), "on")
        },
        None => false,
    }
}

/// Whether the smoke-test setting turns the automation on: trimmed and in
/// ASCII lowercase, it is `1`, `true` or `yes`.
pub open spec fn smoke_on(value: Option<Seq<char>>) -> bool {
    match value {
        Some(v) => {
            let w = lower_seq(trim_seq(v));
            w == "1"@ || w == "true"@ || w == "yes"@
        },
        None => false,
    }
}

/// Whether the smoke-test setting turns the automation on.
pub fn smoke_flag(value: Option<&str>) -> (res: bool)
    ensures
        res == smoke_on(
            match value {
                Some(v) => Some(v@),
                None => None,
            },
        ),
{
    match value {
        Some(v) => {
            let t = trim_str(v);
            let w = to_ascii_lowercase(t.as_str());
            str_eq(w.as_str(), "1") || str_eq(w.as_str(), "true") || str_eq(w.as_str(), "yes")
        },
        None => false,
    }
}

/// Whether the demo mode is on: by either of its two settings.
pub fn gui_demo_mode(gui_demo: Option<&str>, screenshot_demo: Option<&str>) -> (res: bool)
    ensures
        res == (flag_on(
            match gui_demo {
                Some(v) => Some(v@),
                None => None,
            },
        ) || flag_on(
            match screenshot_demo {
                Some(v) => Some(v@),
                None => None,
            },
        )),
{
    env_flag(gui_demo) || env_flag(screenshot_demo)
}

/// The reload target that a desktop request names: `codex` or `cursor`.
pub open spec fn requested_target(target: Seq<char>) -> Option<ReloadAppTarget> {
    if target == "codex"@ {
        Some(ReloadAppTarget::Codex)
    } else if target == "cursor"@ {
        Some(ReloadAppTarget::Cursor)
    } else {
        None
    }
}

/// The reload target that a desktop request names.
pub fn parse_reload_target(target: &str) -> (res: Option<ReloadAppTarget>)
    ensures
        res == requested_target(target@),
{
    if str_eq(target, "codex") {
        Some(ReloadAppTarget::Codex)
    } else if str_eq(target, "cursor") {
        Some(ReloadAppTarget::Cursor)
    } else {
        None
    }
}

/// The answer to a request for an unknown reload target.
pub fn unknown_reload_target<T>() -> (res: DesktopCommandResult<T>)
    ensures
        res matches DesktopCommandResult::Failure(f) && !f.ok && f.error.code@
            == "unknown-reload-target"@ && f.error.message@
            == "The requested reload target is not part of the approved desktop bootstrap surface."@
            && !f.error.retryable,
{
    DesktopCommandResult::err(
        "unknown-reload-target",
        "The requested reload target is not part of the approved desktop bootstrap surface.",
        false,
    )
}

/// The answer where no profile was chosen, where the label is blank.
pub fn check_profile_selection<T>(profile_label: &str, message: &str) -> (res: Option<
    DesktopCommandResult<T>,
>)
    ensures
        trim_seq(profile_label@).len() == 0 ==> (res matches Some(
            DesktopCommandResult::Failure(f),
        ) && !f.ok && f.error.code@ == "missing-profile-selection"@ && f.error.message@
            == message@ && f.error.retryable),
        trim_seq(profile_label@).len() > 0 ==> res is None,
{
    let t = trim_str(profile_label);
    if t.as_str().is_empty() {
        return Some(DesktopCommandResult::err("missing-profile-selection", message, true));
    }
    None
}

/// The answer for the outcome of a query or an action of the shared
/// service: its data, or its message under the given code (a retry may
/// help).
pub fn command_result<T>(outcome: Result<T, String>, code: &str) -> (res: DesktopCommandResult<T>)
    ensures
        match outcome {
            Ok(d) => res matches DesktopCommandResult::Success(s) && s.ok && s.data == d,
            Err(m) => res matches DesktopCommandResult::Failure(f) && !f.ok && f.error.code@ == code@
                && f.error.message@ == m@ && f.error.retryable,
        },
{
    match outcome {
        Ok(d) => DesktopCommandResult::ok(d),
        Err(m) => DesktopCommandResult::err(code, m.as_str(), true),
    }
}

/// The apps the desktop shell can reload: Codex, then Cursor.
pub open spec fn reload_target_rows(t: Seq<ReloadTargetInfo>) -> bool {
    &&& t.len() == 2
    &&& t[0].id@ == "codex"@
    &&& t[0].label@ == "Reload Codex"@
    &&& t[0].description@ == "Refresh the Codex desktop session after an account switch."@
    &&& t[1].id@ == "cursor"@
    &&& t[1].label@ == "Reload Cursor"@
    &&& t[1].description@ == "Refresh Cursor when the bootstrap shell updates editor-side auth."@
}

/// The apps the desktop shell can reload, and the status line under them.
pub fn reload_targets_payload(demo: bool) -> (res: ReloadTargetsPayload)
    ensures
        reload_target_rows(res.targets@),
        res.last_reloaded@ == if demo {
            "Demo reload services ready for screenshots."@
        } else {
            "Shared Rust reload services are ready."@
        },
{
    let codex = ReloadTargetInfo {
        id: owned("codex"),
        label: owned("Reload Codex"),
        description: owned("Refresh the Codex desktop session after an account switch."),
    };
    let cursor = ReloadTargetInfo {
        id: owned("cursor"),
        label: owned("Reload Cursor"),
        description: owned("Refresh Cursor when the bootstrap shell updates editor-side auth."),
    };
    let targets = vec![codex, cursor];
    let last_reloaded = if demo {
        owned("Demo reload services ready for screenshots.")
    } else {
        owned("Shared Rust reload services are ready.")
    };
    ReloadTargetsPayload { targets, last_reloaded }
}

/// The path of the smoke-test trace under the Codex directory.
pub fn smoke_trace_path(codex_dir: &str) -> (res: String)
    ensures
        res@ == crate::profile_store::path_join(codex_dir@, "desktop-smoke-trace.json"@),
{
    crate::common::join_path(codex_dir, "desktop-smoke-trace.json")
}

/// Why a demo profile's usage is unavailable.
#[derive(Clone, Debug, PartialEq, Eq)]
pub struct DemoAvailability {
    pub tag: String,
    pub label: String,
    pub reason: String,
    pub retryable: bool,
}

/// A fake profile shown by the desktop app in demo mode.
#[derive(Clone, Debug, PartialEq, Eq)]
pub struct DemoProfile {
    pub label: String,
    pub plan: String,
    pub reserved: bool,
    pub status: String,
    pub seven_day_remaining: String,
    pub five_hour_remaining: String,
    pub availability: Option<DemoAvailability>,
}

/// A demo profile as plain values.
pub type DemoRow = (
    Seq<char>,
    Seq<char>,
    bool,
    Seq<char>,
    Seq<char>,
    Seq<char>,
    Option<(Seq<char>, Seq<char>, Seq<char>, bool)>,
);

/// A demo profile as plain values.
pub open spec fn demo_row(p: DemoProfile) -> DemoRow {
    (
        p.label@,
        p.plan@,
        p.reserved,
        p.status@,
        p.seven_day_remaining@,
        p.five_hour_remaining@,
        match p.availability {
            Some(a) => Some((a.tag@, a.label@, a.reason@, a.retryable)),
            None => None,
        },
    )
}

/// Demo profiles as plain values.
pub open spec fn demo_rows(s: Seq<DemoProfile>) -> Seq<DemoRow> {
    Seq::new(s.len(), |i: int| demo_row(s[i]))
}

/// The demo profiles, in the order shown: a mix of usable, reserved and
/// unavailable accounts.
pub open spec fn demo_table() -> Seq<DemoRow> {
    seq![
        ("demo-main"@, "Pro"@, false, "active"@, "83%"@, "61%"@, None),
        ("work-team"@, "Team"@, false, "available"@, "72%"@, "100%"@, None),
        ("personal-pro"@, "Pro"@, false, "available"@, "48%"@, "37%"@, None),
        ("reserved-batch"@, "Enterprise"@, true, "reserved"@, "64%"@, "52%"@, None),
        ("vps-agent-1"@, "Key"@, false, "available"@, "--"@, "--"@, Some(("apiKeyUnsupported"@, "API key only"@, "Usage unavailable for API key login"@, false))),
        ("usage-404"@, "Pro"@, false, "available"@, "--"@, "--"@, Some(("usageFetchError"@, "Usage fetch error"@, "failed to fetch usage: http status: 404"@, true))),
        ("stale-session"@, "Team"@, false, "available"@, "--"@, "--"@, Some(("missingAccessToken"@, "Auth token missing"@, "Missing access token"@, true))),
        ("broken-account"@, "Pro"@, false, "available"@, "--"@, "--"@, Some(("missingAccountId"@, "Account id missing"@, "Missing account id"@, true))),
        ("free-trial"@, "Free"@, false, "available"@, "--"@, "--"@, Some(("freePlanUnsupported"@, "Free plan"@, "Usage unavailable for free plan"@, false))),
        ("window-partial"@, "Plus"@, false, "available"@, "--"@, "--"@, Some(("missingFiveHourWindow"@, "5h window missing"@, "Missing 5h usage window"@, false))),
        ("weekly-gap"@, "Plus"@, false, "available"@, "--"@, "--"@, Some(("missingSevenDayWindow"@, "7d window missing"@, "Missing 7d usage window"@, false))),
    ]
}

fn demo_availability(tag: &str, label: &str, reason: &str, retryable: bool) -> (res: DemoAvailability)
    ensures
        res.tag@ == tag@,
        res.label@ == label@,
        res.reason@ == reason@,
        res.retryable == retryable,
{
    DemoAvailability { tag: owned(tag), label: owned(label), reason: owned(reason), retryable }
}

fn demo_profile(
    label: &str,
    plan: &str,
    reserved: bool,
    status: &str,
    seven_day_remaining: &str,
    five_hour_remaining: &str,
    availability: Option<DemoAvailability>,
) -> (res: DemoProfile)
    ensures
        demo_row(res) == (
            label@,
            plan@,
            reserved,
            status@,
            seven_day_remaining@,
            five_hour_remaining@,
            match availability {
                Some(a) => Some((a.tag@, a.label@, a.reason@, a.retryable)),
                None => None,
            },
        ),
{
    DemoProfile {
        label: owned(label),
        plan: owned(plan),
        reserved,
        status: owned(status),
        seven_day_remaining: owned(seven_day_remaining),
        five_hour_remaining: owned(five_hour_remaining),
        availability,
    }
}

/// The fake profiles of the demo mode.
pub fn demo_profiles() -> (res: Vec<DemoProfile>)
    ensures
        demo_rows(res@) == demo_table(),
{
    let v = vec![
        demo_profile("demo-main", "Pro", false, "active", "83%", "61%", None),
        demo_profile("work-team", "Team", false, "available", "72%", "100%", None),
        demo_profile("personal-pro", "Pro", false, "available", "48%", "37%", None),
        demo_profile("reserved-batch", "Enterprise", true, "reserved", "64%", "52%", None),
        demo_profile("vps-agent-1", "Key", false, "available", "--", "--", Some(demo_availability("apiKeyUnsupported", "API key only", "Usage unavailable for API key login", false))),
        demo_profile("usage-404", "Pro", false, "available", "--", "--", Some(demo_availability("usageFetchError", "Usage fetch error", "failed to fetch usage: http status: 404", true))),
        demo_profile("stale-session", "Team", false, "available", "--", "--", Some(demo_availability("missingAccessToken", "Auth token missing", "Missing access token", true))),
        demo_profile("broken-account", "Pro", false, "available", "--", "--", Some(demo_availability("missingAccountId", "Account id missing", "Missing account id", true))),
        demo_profile("free-trial", "Free", false, "available", "--", "--", Some(demo_availability("freePlanUnsupported", "Free plan", "Usage unavailable for free plan", false))),
        demo_profile("window-partial", "Plus", false, "available", "--", "--", Some(demo_availability("missingFiveHourWindow", "5h window missing", "Missing 5h usage window", false))),
        demo_profile("weekly-gap", "Plus", false, "available", "--", "--", Some(demo_availability("missingSevenDayWindow", "7d window missing", "Missing 7d usage window", false))),
    ];
    assert(demo_rows(v@) =~= demo_table());
    v
}

} // verus!
