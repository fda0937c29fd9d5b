use codex_profiles::priority::{
    best_ready_row, priority_row_cmp, priority_state_from_limits, priority_usage,
    sort_priority_rows, usage_precheck, PriorityRow, PriorityState, PriorityUsage,
    UsageWindowInfo, UsageWindows,
};
use codex_profiles::priority_group::{
    dedupe_priority_rows, priority_identity_key, profile_name_for_priority_row,
    PriorityCandidate,
};
use codex_profiles::priority_group::{current_priority_candidate, saved_priority_candidate};
use codex_profiles::priority_table::render_priority_table;
use codex_profiles::tokens_from_api_key;

fn ready(id: &str, seven: i64, five: i64, candidate: bool) -> PriorityRow {
    let usage = priority_usage(five, seven, Some("in 1h".into()), Some("in 2d".into()));
    PriorityRow {
        id: id.to_string(),
        profile_name: format!("{id}@example.com"),
        label: None,
        is_current: false,
        candidate,
        state: PriorityState::Ready(usage),
    }
}

fn unavailable(id: &str, reason: &str) -> PriorityRow {
    PriorityRow {
        id: id.to_string(),
        profile_name: format!("{id}@example.com"),
        label: None,
        is_current: false,
        candidate: true,
        state: PriorityState::Unavailable(reason.to_string()),
    }
}

#[test]
fn priority_order_prefers_tier_score_and_label() {
    let mut rows = [
        PriorityRow {
            id: "b".to_string(),
            profile_name: "b@example.com [b]".to_string(),
            label: Some("b".to_string()),
            is_current: false,
            candidate: true,
            state: PriorityState::Ready(PriorityUsage {
                seven_day_left: 40,
                seven_day_reset: Some("in 3d".to_string()),
                five_hour_left: 0,
                five_hour_reset: Some("in 1h".to_string()),
                tier: 1,
                score: 2800,
            }),
        },
        PriorityRow {
            id: "a".to_string(),
            profile_name: "a@example.com [a]".to_string(),
            label: Some("a".to_string()),
            is_current: false,
            candidate: true,
            state: PriorityState::Ready(PriorityUsage {
                seven_day_left: 55,
                seven_day_reset: Some("in 4d".to_string()),
                five_hour_left: 45,
                five_hour_reset: Some("in 2h".to_string()),
                tier: 0,
                score: 5200,
            }),
        },
        PriorityRow {
            id: "c".to_string(),
            profile_name: "c@example.com [c]".to_string(),
            label: Some("c".to_string()),
            is_current: false,
            candidate: true,
            state: PriorityState::Unavailable("usage failed".to_string()),
        },
    ];
    rows.sort_by(priority_row_cmp);
    assert_eq!(rows[0].id, "a");
    assert_eq!(rows[1].id, "b");
    assert_eq!(rows[2].id, "c");
}

#[test]
fn render_priority_table_shows_unavailable_summary() {
    let rows = vec![
        PriorityRow {
            id: "a".to_string(),
            profile_name: "a@example.com [a]".to_string(),
            label: Some("a".to_string()),
            is_current: true,
            candidate: true,
            state: PriorityState::Ready(PriorityUsage {
                seven_day_left: 90,
                seven_day_reset: Some("in 6d".to_string()),
                five_hour_left: 50,
                five_hour_reset: Some("in 5h".to_string()),
                tier: 0,
                score: 7800,
            }),
        },
        PriorityRow {
            id: "b".to_string(),
            profile_name: "b@example.com [b]".to_string(),
            label: Some("b".to_string()),
            is_current: false,
            candidate: true,
            state: PriorityState::Unavailable("missing 7d window".to_string()),
        },
    ];
    let output = render_priority_table(&rows, false);
    assert!(output.contains("Priority ranking"));
    assert!(output.contains("5H RESET"));
    assert!(output.contains("7D RESET"));
    assert!(output.contains("UNAVAILABLE"));
    assert!(output.contains("Unavailable profiles"));
}

#[test]
fn render_priority_table_exact_text() {
    let rows = vec![ready("a", 90, 50, true)];
    let output = render_priority_table(&rows, false);
    let expected = [
        "Priority ranking (best first)",
        "#  CUR  PROFILE        7D   7D RESET  5H   5H RESET  TIER  SCORE  STATE",
        "-  ---  -------------  ---  --------  ---  --------  ----  -----  -----",
        "1       a@example.com  90%  in 2d     50%  in 1h     T0    78.0   READY",
    ]
    .join("\n");
    assert_eq!(output, expected);
}

#[test]
fn tier_and_score_follow_the_windows() {
    let u = priority_usage(50, 90, None, None);
    assert_eq!((u.tier, u.score), (0, 90 * 70 + 50 * 30));
    let u = priority_usage(0, 90, None, None);
    assert_eq!((u.tier, u.score), (1, 0));
    let u = priority_usage(40, 0, None, None);
    assert_eq!((u.tier, u.score), (2, 0));
}

#[test]
fn sorting_ranks_ready_before_unavailable() {
    let mut rows = vec![
        unavailable("z", "x"),
        ready("low", 10, 10, true),
        ready("high", 90, 90, true),
        ready("spent", 0, 50, true),
    ];
    sort_priority_rows(&mut rows);
    let ids: Vec<&str> = rows.iter().map(|r| r.id.as_str()).collect();
    assert_eq!(ids, vec!["high", "low", "spent", "z"]);
}

#[test]
fn best_ready_row_skips_reserved_and_unavailable_rows() {
    let rows = vec![unavailable("u", "x"), ready("reserved", 90, 90, false), ready("ok", 10, 10, true)];
    assert_eq!(best_ready_row(&rows), Some(2));
    let rows = vec![unavailable("u", "x"), ready("reserved", 90, 90, false)];
    assert_eq!(best_ready_row(&rows), None);
}

#[test]
fn state_from_limits_reports_missing_windows() {
    let w = |left: i64| UsageWindowInfo { left_percent: left, reset_at: 0, reset_at_relative: Some("  in 1h ".into()) };
    let state = priority_state_from_limits(Ok(UsageWindows { five_hour: None, weekly: Some(w(5)) }));
    assert!(matches!(state, PriorityState::Unavailable(m) if m == "Missing 5h usage window"));
    let state = priority_state_from_limits(Ok(UsageWindows { five_hour: Some(w(5)), weekly: None }));
    assert!(matches!(state, PriorityState::Unavailable(m) if m == "Missing 7d usage window"));
    let state = priority_state_from_limits(Ok(UsageWindows { five_hour: Some(w(5)), weekly: Some(w(7)) }));
    match state {
        PriorityState::Ready(u) => {
            assert_eq!(u.five_hour_reset.as_deref(), Some("in 1h"));
            assert_eq!(u.score, 7 * 70 + 5 * 30);
        }
        _ => panic!("expected ready"),
    }
    let state = priority_state_from_limits(Err("boom".into()));
    assert!(matches!(state, PriorityState::Unavailable(m) if m == "boom"));
}

#[test]
fn api_key_logins_are_not_ranked() {
    let state = usage_precheck(&tokens_from_api_key("k")).unwrap();
    assert!(matches!(state, PriorityState::Unavailable(m) if m == "Usage unavailable for API key login"));
}

#[test]
fn rows_of_one_account_merge_into_one() {
    let mut current = ready("b", 50, 50, true);
    current.is_current = true;
    current.label = Some("work".into());
    let cands = vec![
        PriorityCandidate {
            row: ready("a", 90, 90, false),
            identity: "account:1".into(),
            readable: true,
            last_used: 5,
            email: "a@example.com".into(),
            reserved: true,
        },
        PriorityCandidate {
            row: current,
            identity: "account:1".into(),
            readable: true,
            last_used: 1,
            email: "b@example.com".into(),
            reserved: false,
        },
        PriorityCandidate {
            row: unavailable("c", "x"),
            identity: "account:2".into(),
            readable: false,
            last_used: 0,
            email: "c@example.com".into(),
            reserved: false,
        },
    ];
    let merged = dedupe_priority_rows(cands);
    assert_eq!(merged.len(), 2);
    assert_eq!(merged[0].id, "b");
    assert!(merged[0].is_current && merged[0].candidate);
    assert_eq!(merged[0].label.as_deref(), Some("work"));
    assert_eq!(merged[0].profile_name, "b@example.com [work]");
    match &merged[0].state {
        PriorityState::Ready(u) => assert_eq!(u.seven_day_left, 90),
        _ => panic!("expected ready"),
    }
    assert_eq!(merged[1].id, "c");
}

#[test]
fn identity_key_prefers_account_then_email_then_id() {
    assert_eq!(priority_identity_key("__current__", None, None, None), "id:__current__");
    let t = tokens_from_api_key("k");
    let key = priority_identity_key("p", Some(&t), None, None);
    assert!(key.starts_with("account:api-key-k~"));
    assert_eq!(priority_identity_key("p", None, Some("acct"), Some("A@B")), "account:acct");
    assert_eq!(priority_identity_key("p", None, None, Some("A@B")), "email:a@b");
    assert_eq!(priority_identity_key("p", None, None, None), "id:p");
    assert_eq!(profile_name_for_priority_row("a@b", Some("x"), true), "a@b [x] [reserved]");
}

#[test]
fn priority_rows_mark_reserved_profiles_as_non_candidates() {
    let usage = priority_usage(50, 50, None, None);
    let reserved = saved_priority_candidate(
        "r".into(), Some("vps".into()), Some("x"), true, PriorityState::Ready(usage.clone()),
        "account:1".into(), true, 5, "r@x.com".into(),
    );
    assert!(!reserved.row.candidate);
    assert_eq!(reserved.row.profile_name, "r@x.com [vps] [reserved]");
    assert!(!reserved.row.is_current);
    let free = saved_priority_candidate(
        "f".into(), None, Some("f"), false, PriorityState::Ready(usage),
        "account:2".into(), true, 5, "f@x.com".into(),
    );
    assert!(free.row.candidate);
    assert!(free.row.is_current);
    let rows = dedupe_priority_rows(vec![reserved, free]);
    let best = best_ready_row(&rows).unwrap();
    assert_eq!(rows[best].id, "f");
    let current = current_priority_candidate(None, PriorityState::Unavailable("x".into()), "id:__current__".into(), false);
    assert_eq!(current.row.id, "__current__");
    assert_eq!(current.row.profile_name, "Current profile");
    assert!(!current.row.candidate && current.row.is_current);
}
