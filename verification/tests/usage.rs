use codex_profiles::ui::Ui;
use codex_profiles::usage::{
    ensure_usage, format_duration, format_last_used, format_usage, format_usage_contents,
    normalize_base_url, normalize_usage, ordered_profiles, parse_config_value,
    parse_usage_entries, read_base_url, render_bar, strip_ansi, usage_endpoint,
    usage_unavailable, DurationStyle, UsageFetchError, UsageLine,
};

fn s(x: &str) -> String {
    x.to_string()
}

#[test]
fn config_values_skip_comments_and_quotes() {
    assert_eq!(parse_config_value(" chatgpt_base_url = \"https://x\" # note", "chatgpt_base_url").as_deref(), Some("https://x"));
    assert_eq!(parse_config_value("# chatgpt_base_url = x", "chatgpt_base_url"), None);
    assert_eq!(parse_config_value("other = x", "chatgpt_base_url"), None);
    assert_eq!(parse_config_value("k = '#x'", "k").as_deref(), Some("#x"));
    assert_eq!(parse_config_value("k = \"\"", "k"), None);
}

#[test]
fn base_url_gets_backend_api() {
    assert_eq!(normalize_base_url("https://chatgpt.com/"), "https://chatgpt.com/backend-api");
    assert_eq!(normalize_base_url("http://localhost:8080//"), "http://localhost:8080");
    assert_eq!(usage_endpoint("https://chatgpt.com/backend-api"), "https://chatgpt.com/backend-api/wham/usage");
    assert_eq!(usage_endpoint("http://localhost"), "http://localhost/api/codex/usage");
    assert_eq!(read_base_url(None), "https://chatgpt.com/backend-api");
    assert_eq!(read_base_url(Some("model = \"x\"\nchatgpt_base_url = \"https://chat.openai.com\"\n")), "https://chat.openai.com/backend-api");
}

#[test]
fn durations_use_the_largest_unit() {
    assert_eq!(format_duration(59, DurationStyle::LastUsed), "59s");
    assert_eq!(format_duration(3599, DurationStyle::LastUsed), "59m");
    assert_eq!(format_duration(7200, DurationStyle::ResetTimer), "in 2h");
    assert_eq!(format_duration(90000, DurationStyle::LastUsed), "1d");
    assert_eq!(format_last_used(0, 10), "unknown");
    assert_eq!(format_last_used(100, 160), "1m ago");
    assert_eq!(format_last_used(200, 100), "in 1m");
}

#[test]
fn usage_file_round_trip() {
    let entries = vec![(s("a"), 3), (s("b"), 0)];
    let text = format_usage_contents(&entries);
    assert_eq!(text, "a\t3\nb\t0\n");
    assert_eq!(parse_usage_entries(&text), entries);
    assert_eq!(parse_usage_entries(" x\t1 \n\nbad\n\ty\t2\nz\tq\n"), vec![(s("x"), 1), (s("y"), 2)]);
}

#[test]
fn normalize_keeps_saved_ids_with_latest_time() {
    let entries = vec![(s("b"), 5), (s("gone"), 9), (s("b"), 7), (s("a"), 1)];
    let ids = vec![s("c"), s("b"), s("a"), s("b")];
    let map = normalize_usage(&entries, &ids);
    assert_eq!(map, vec![(s("a"), 1), (s("b"), 7), (s("c"), 0)]);
    let ordered = ordered_profiles(&map);
    assert_eq!(ordered, vec![(s("b"), 7), (s("a"), 1), (s("c"), 0)]);
    let (map2, write) = ensure_usage("a\t1\nb\t7\nc\t0\n", &ids);
    assert_eq!(map2, map);
    assert!(write.is_none());
    let (_, write) = ensure_usage("b\t7\n", &ids);
    assert_eq!(write.as_deref(), Some("a\t0\nb\t7\nc\t0\n"));
}

#[test]
fn usage_lines_show_available_windows() {
    let ui = Ui::new("cp");
    let five = UsageLine { bar: render_bar(10), percent: s("50%"), reset: s("in 2h"), left_percent: Some(50) };
    let weekly = UsageLine::unavailable("Data not available");
    let lines = format_usage(&ui, five, weekly, "Data not available", false);
    assert_eq!(lines, vec![format!("{} 50% left (resets in 2h)", render_bar(10))]);
    let lines = format_usage(&ui, UsageLine::unavailable("x"), UsageLine::unavailable("x"), usage_unavailable(true), false);
    assert_eq!(lines, vec![s("You need a ChatGPT subscription to use Codex CLI")]);
    assert_eq!(render_bar(25).chars().filter(|c| *c == '▮').count(), 20);
    assert_eq!(strip_ansi("\x1b[31mred\x1b[0m!"), "red!");
}

#[test]
fn fetch_errors_have_messages() {
    assert_eq!(UsageFetchError::Status(401).status_code(), Some(401));
    assert_eq!(UsageFetchError::Status(401).message(), "Error: failed to fetch usage: http status: 401");
    assert_eq!(UsageFetchError::Parse(s("bad")).message(), "Error: failed to parse usage: bad");
    assert_eq!(UsageFetchError::Transport(s("x")).status_code(), None);
}

#[test]
fn now_seconds_is_after_2020() {
    assert!(codex_profiles::usage::now_seconds() > 1_577_836_800);
}
