use codex_profiles::ide_reload::{IdeReloadOutcome, ReloadAppTarget};
use codex_profiles::priority::{priority_usage, PriorityRow, PriorityState};
use codex_profiles::profile_store::{ProfileIndexEntry, ProfilesIndex};
use codex_profiles::service::{
    active_profile_status_payload, build_switch_preview, check_switch,
    display_without_reserved_marker, find_requested_profile, normalize_reload_outcome,
    profile_plan, profiles_overview_payload, reload_target_display, reserved_profile_count,
    switch_execution_payload, switch_summary, ReloadOutcomePayload,
};
use codex_profiles::tokens_from_api_key;

fn ready(id: &str, seven: i64, five: i64, candidate: bool) -> PriorityRow {
    let usage = priority_usage(five, seven, None, None);
    PriorityRow {
        id: id.to_string(),
        profile_name: format!("{id}@example.com"),
        label: None,
        is_current: false,
        candidate,
        state: PriorityState::Ready(usage),
    }
}

fn unavailable(id: &str, reason: &str) -> PriorityRow {
    PriorityRow {
        id: id.to_string(),
        profile_name: format!("{id}@example.com"),
        label: None,
        is_current: false,
        candidate: true,
        state: PriorityState::Unavailable(reason.to_string()),
    }
}

#[test]
fn normalize_reload_outcome_adds_cursor_helper_hint() {
    let payload = normalize_reload_outcome(
        ReloadAppTarget::Cursor,
        IdeReloadOutcome {
            attempted: false,
            restarted: false,
            message: "Reload hint: detected Cursor Codex extension; automatic extension reload is not implemented."
                .to_string(),
            manual_hints: Vec::new(),
        },
    );

    assert_eq!(payload.target, "cursor");
    assert!(
        payload
            .manual_hints
            .iter()
            .any(|hint| hint.contains("Commands Executor"))
    );
}

#[test]
fn normalize_reload_outcome_leaves_codex_and_protocol_outcomes() {
    let codex = normalize_reload_outcome(
        ReloadAppTarget::Codex,
        IdeReloadOutcome {
            attempted: true,
            restarted: true,
            message: "done".to_string(),
            manual_hints: vec!["x".to_string()],
        },
    );
    assert_eq!(codex.target, "codex");
    assert_eq!(codex.manual_hints, vec!["x".to_string()]);
    let protocol = normalize_reload_outcome(
        ReloadAppTarget::All,
        IdeReloadOutcome {
            attempted: true,
            restarted: false,
            message: "Cursor protocol reload is available".to_string(),
            manual_hints: vec![],
        },
    );
    assert!(protocol.manual_hints.is_empty());
    assert_eq!(protocol.target, "all");
}

#[test]
fn reserved_marker_is_dropped_from_selection_labels() {
    assert_eq!(display_without_reserved_marker("a@b.com [reserved]"), "a@b.com");
    assert_eq!(display_without_reserved_marker("a@b.com"), "a@b.com");
}

#[test]
fn preview_recommends_best_ready_profile() {
    let mut current = ready("cur", 10, 10, true);
    current.is_current = true;
    let rows = vec![
        unavailable("u", "usage unavailable"),
        ready("best", 90, 80, true),
        current,
        ready("res", 100, 100, false),
    ];
    let plans = vec!["Plus".to_string(), "Pro".to_string(), "Team".to_string(), "Free".to_string()];
    let (preview, selected) = build_switch_preview(&rows, &plans, None).unwrap();
    assert_eq!(selected, Some(1));
    assert_eq!(preview.requested_profile, "best@example.com");
    assert_eq!(preview.recommended_profile.as_deref(), Some("best@example.com"));
    assert_eq!(preview.active_profile.as_deref(), Some("cur@example.com"));
    assert!(preview.can_switch);
    assert_eq!(
        preview.summary,
        "best@example.com is the current best switch candidate from the shared Rust runtime."
    );
    assert!(preview.manual_hints.is_empty());
    let ranks: Vec<Option<usize>> = preview.profiles.iter().map(|p| p.rank).collect();
    assert_eq!(ranks, vec![None, Some(1), Some(2), None]);
    assert_eq!(preview.profiles[0].seven_day_remaining, "UNAVAILABLE");
    assert_eq!(preview.profiles[0].unavailable_reason.as_deref(), Some("usage unavailable"));
    assert_eq!(preview.profiles[1].seven_day_remaining, "90%");
    assert_eq!(preview.profiles[1].five_hour_remaining, "80%");
    assert_eq!(preview.profiles[3].status, "reserved");
    assert!(preview.profiles[1].recommended);
    assert_eq!(preview.profiles[2].plan, "Team");
}

#[test]
fn preview_of_requested_profile_explains_why_not() {
    let rows = vec![unavailable("u", "no data"), ready("res", 100, 100, false)];
    let plans = vec!["a".to_string(), "b".to_string()];
    let (preview, selected) = build_switch_preview(&rows, &plans, Some("U@EXAMPLE.COM")).unwrap();
    assert_eq!(selected, Some(0));
    assert_eq!(preview.requested_profile, "U@EXAMPLE.COM");
    assert!(!preview.can_switch);
    assert_eq!(preview.summary, "u@example.com is not currently switchable: no data.");
    assert_eq!(
        preview.manual_hints,
        vec![
            "Refresh usage data or repair the saved profile before attempting an automatic switch."
                .to_string(),
            "At least one non-reserved profile with readable usage data is required for automatic switching."
                .to_string(),
        ]
    );
    assert_eq!(
        build_switch_preview(&rows, &plans, Some("nobody")).unwrap_err(),
        "Profile 'nobody' is not available in the shared switcher runtime."
    );
    assert_eq!(
        find_requested_profile(&[], "x").unwrap_err(),
        "No saved profiles are available for switch preview."
    );
    assert_eq!(
        switch_summary(&rows, Some(1), None),
        "res@example.com is reserved and excluded from automatic switching."
    );
    assert_eq!(
        switch_summary(&rows, None, None),
        "No eligible profile is available for automatic switching."
    );
}

#[test]
fn overview_and_status_describe_the_rows() {
    let mut current = ready("__current__", 50, 50, true);
    current.is_current = true;
    current.profile_name = "me@example.com".to_string();
    let rows = vec![current, ready("b", 10, 10, true)];
    let plans = vec!["Plus".to_string(), "Pro".to_string()];
    let overview = profiles_overview_payload(&rows, &plans, 1, "2024-01-01 00:00 +00:00".to_string());
    assert_eq!(overview.workspace_label, "Shared runtime: 2 profiles");
    assert_eq!(
        overview.events,
        vec![
            "Canonical Rust runtime returned 2 profiles for the desktop shell.".to_string(),
            "Active profile: me@example.com.".to_string(),
            "1 reserved profile stay out of auto-switch candidacy.".to_string(),
            "Current auth session is not saved yet; the shared service still exposes it as the active profile."
                .to_string(),
        ]
    );
    assert_eq!(overview.profiles[0].status, "active");
    assert_eq!(overview.profiles[1].plan, "Pro");
    let status = active_profile_status_payload(&rows, 1);
    assert_eq!(status.active_profile, "me@example.com");
    assert_eq!(
        status.summary,
        "me@example.com is active in auth.json but has not been saved as a reusable profile yet."
    );
    let none = active_profile_status_payload(&rows[1..], 0);
    assert_eq!(none.active_profile, "No active profile");
    assert_eq!(
        none.summary,
        "No active profile could be derived from the current auth state."
    );
}

#[test]
fn switch_checks_and_execution_summary() {
    let rows = vec![ready("a", 10, 10, true)];
    let plans = vec!["Plus".to_string()];
    let (preview, _) = build_switch_preview(&rows, &plans, None).unwrap();
    assert_eq!(
        check_switch(&preview, None).unwrap_err(),
        "Error: no eligible profile found for auto-switch."
    );
    assert!(check_switch(&preview, Some("a@example.com")).is_ok());
    let reload = ReloadOutcomePayload {
        target: "cursor".to_string(),
        attempted: true,
        restarted: false,
        message: "ok".to_string(),
        manual_hints: vec!["h".to_string()],
    };
    let done = switch_execution_payload(preview, "a@example.com", Some(reload));
    assert!(done.success);
    assert_eq!(
        done.summary,
        "Loaded a@example.com via the shared Rust switch service and processed Cursor reload guidance."
    );
    assert_eq!(done.manual_hints, vec!["h".to_string()]);
    assert_eq!(reload_target_display("all"), "all-target");
    assert_eq!(reload_target_display("x"), "requested");
}

#[test]
fn plans_and_reserved_counts() {
    let tokens = tokens_from_api_key("sk-abc");
    assert_eq!(profile_plan(Some(&tokens)), "Key");
    assert_eq!(profile_plan(None), "Unknown plan");
    let mut index = ProfilesIndex::empty();
    let mut e = ProfileIndexEntry::blank();
    e.reserved = true;
    index.profiles.insert("a".to_string(), e);
    index.profiles.insert("b".to_string(), ProfileIndexEntry::blank());
    assert_eq!(reserved_profile_count(&index), 1);
}
