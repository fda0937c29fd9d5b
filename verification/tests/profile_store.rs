use codex_profiles::profile_store::{
    apply_labels, assign_label, collect_profile_ids, forget_profiles, is_profile_file,
    label_for_id, labels_from_index, last_label_for_id, normalize_labels, profile_files,
    profile_id_from_path, profile_path_for_id, prune_labels, prune_profiles_index,
    remove_labels_for_id, resolve_label_id, sync_profiles_index, trim_label,
    update_profiles_index_entry, usage_map_from_index, Labels, ProfileIndexEntry, ProfilesIndex,
};
use codex_profiles::profile_store::{
    load_profile_tokens_map, remove_labels_for_ids, set_profile_reserved, ProfileRead,
};
use codex_profiles::strmap::StrMap;
use codex_profiles::tokens_from_api_key;
use codex_profiles::ui::Ui;

fn s(v: &str) -> String {
    v.to_string()
}

fn ui() -> Ui {
    Ui::new("codex-profiles")
}

#[test]
fn profiles_label_helpers() {
    let ui = ui();
    let mut labels = Labels::new();
    assign_label(&mut labels, "Team", "id", &ui, false).unwrap();
    assert_eq!(label_for_id(&labels, "id").unwrap(), "Team");
    assert_eq!(resolve_label_id(&labels, "Team", &ui, false).unwrap(), "id");
    remove_labels_for_id(&mut labels, "id");
    assert!(labels.is_empty());
    assert!(trim_label(" ").is_err());
}

#[test]
fn profiles_tests_label_helpers() {
    let ui = ui();
    let mut labels = Labels::new();
    assign_label(&mut labels, "Team", "id", &ui, false).unwrap();
    assert_eq!(label_for_id(&labels, "id").unwrap(), "Team");
    assert_eq!(resolve_label_id(&labels, "Team", &ui, false).unwrap(), "id");
    remove_labels_for_id(&mut labels, "id");
    assert!(labels.is_empty());
    assert!(trim_label(" ").is_err());
}

#[test]
fn assign_label_trims_and_refuses_taken_labels() {
    let ui = ui();
    let mut labels = Labels::new();
    assign_label(&mut labels, "  work ", "a", &ui, false).unwrap();
    assert_eq!(labels.get("work").map(|v| v.as_str()), Some("a"));
    assign_label(&mut labels, "work", "a", &ui, false).unwrap();
    let err = assign_label(&mut labels, "work", "b", &ui, false).unwrap_err();
    assert_eq!(
        err,
        "Error: label 'work' already exists. \n\nRun `codex-profiles list` to see saved profiles."
    );
    assert_eq!(
        assign_label(&mut labels, "   ", "b", &ui, false).unwrap_err(),
        "Error: label cannot be empty"
    );
    assert_eq!(labels.len(), 1);
}

#[test]
fn resolve_label_reports_missing_label() {
    let mut ui = ui();
    let labels = Labels::new();
    ui.set_plain(true);
    assert_eq!(
        resolve_label_id(&labels, "x", &ui, false).unwrap_err(),
        "Error: label 'x' was not found. INFO: Run `codex-profiles list` to see saved profiles."
    );
    ui.set_plain(false);
    assert_eq!(
        resolve_label_id(&labels, " nope ", &ui, false).unwrap_err(),
        "Error: label 'nope' was not found. \n\nRun `codex-profiles list` to see saved profiles."
    );
}

#[test]
fn first_and_last_label_of_a_profile() {
    let ui = ui();
    let mut labels = Labels::new();
    assign_label(&mut labels, "zeta", "a", &ui, false).unwrap();
    assign_label(&mut labels, "alpha", "a", &ui, false).unwrap();
    assign_label(&mut labels, "mid", "b", &ui, false).unwrap();
    assert_eq!(label_for_id(&labels, "a").as_deref(), Some("alpha"));
    assert_eq!(last_label_for_id(&labels, "a").as_deref(), Some("zeta"));
    assert_eq!(label_for_id(&labels, "c"), None);
    assert_eq!(labels.keys(), vec![s("alpha"), s("mid"), s("zeta")]);
}

#[test]
fn prune_labels_keeps_saved_profiles_only() {
    let ui = ui();
    let mut labels = Labels::new();
    assign_label(&mut labels, "one", "a", &ui, false).unwrap();
    assign_label(&mut labels, "two", "b", &ui, false).unwrap();
    prune_labels(&mut labels, &[s("b"), s("c")]);
    assert_eq!(labels.keys(), vec![s("two")]);
}

#[test]
fn normalize_labels_trims_and_drops_empty() {
    let mut labels = Labels::new();
    labels.insert(s(" a "), s(" x "));
    labels.insert(s("b"), s("  "));
    labels.insert(s("   "), s("y"));
    labels.insert(s("a"), s("z"));
    let n = normalize_labels(&labels);
    assert_eq!(n.keys(), vec![s("a")]);
    assert_eq!(n.get("a").map(|v| v.as_str()), Some("z"));
}

#[test]
fn profile_paths_and_ids() {
    assert_eq!(profile_id_from_path("/p/work.json").as_deref(), Some("work"));
    assert_eq!(profile_id_from_path("/p/a.b.json").as_deref(), Some("a.b"));
    assert_eq!(profile_id_from_path("/p/.hidden").as_deref(), Some(".hidden"));
    assert_eq!(profile_id_from_path("/"), None);
    assert!(is_profile_file("/p/work.json"));
    assert!(!is_profile_file("/p/profiles.json"));
    assert!(!is_profile_file("/p/update.json"));
    assert!(!is_profile_file("/p/usage.tsv"));
    assert!(!is_profile_file("/p/.json"));
    assert_eq!(profile_path_for_id("/p", "x"), "/p/x.json");
    assert_eq!(profile_path_for_id("/p/", "x"), "/p/x.json");
    assert_eq!(profile_path_for_id("", "x"), "x.json");
    let listing = vec![
        s("/p/b.json"),
        s("/p/profiles.json"),
        s("/p/a.json"),
        s("/p/usage.tsv"),
        s("/p/b.json"),
    ];
    assert_eq!(
        profile_files(&listing),
        vec![s("/p/b.json"), s("/p/a.json"), s("/p/b.json")]
    );
    assert_eq!(collect_profile_ids(&listing), vec![s("a"), s("b")]);
}

fn entry(label: Option<&str>, last_used: Option<u64>) -> ProfileIndexEntry {
    let mut e = ProfileIndexEntry::blank();
    e.label = label.map(s);
    e.last_used = last_used;
    e
}

#[test]
fn labels_from_index_keeps_first_owner_of_a_label() {
    let mut index = ProfilesIndex::empty();
    index.profiles.insert(s("b"), entry(Some(" team "), None));
    index.profiles.insert(s("a"), entry(Some("team"), None));
    index.profiles.insert(s("c"), entry(Some("  "), None));
    let labels = labels_from_index(&index);
    assert_eq!(labels.keys(), vec![s("team")]);
    assert_eq!(labels.get("team").map(|v| v.as_str()), Some("a"));
}

#[test]
fn write_then_read_labels_round_trips() {
    let ui = ui();
    let mut index = ProfilesIndex::empty();
    index.profiles.insert(s("a"), entry(Some("old"), Some(4)));
    let mut labels = Labels::new();
    assign_label(&mut labels, "work", "a", &ui, false).unwrap();
    assign_label(&mut labels, "home", "new", &ui, false).unwrap();
    apply_labels(&mut index, &labels);
    assert_eq!(index.profiles.get("a").unwrap().label.as_deref(), Some("work"));
    assert_eq!(index.profiles.get("a").unwrap().last_used, Some(4));
    assert_eq!(index.profiles.get("new").unwrap().label.as_deref(), Some("home"));
    let back = labels_from_index(&index);
    assert_eq!(back.keys(), vec![s("home"), s("work")]);
    assert_eq!(back.get("work").map(|v| v.as_str()), Some("a"));
}

#[test]
fn usage_map_and_sync_follow_the_index() {
    let ui = ui();
    let mut index = ProfilesIndex::empty();
    index.profiles.insert(s("a"), entry(None, Some(9)));
    index.profiles.insert(s("b"), entry(Some("x"), None));
    let usage = usage_map_from_index(&index, &[s("a"), s("b"), s("c")]);
    assert_eq!(usage.get("a"), Some(&9));
    assert_eq!(usage.get("b"), Some(&0));
    assert_eq!(usage.get("c"), Some(&0));
    let mut labels = Labels::new();
    assign_label(&mut labels, "first", "a", &ui, false).unwrap();
    let mut usage_map: StrMap<u64> = StrMap::new();
    usage_map.insert(s("b"), 7);
    sync_profiles_index(&mut index, &usage_map, &labels);
    assert_eq!(index.profiles.get("a").unwrap().last_used, None);
    assert_eq!(index.profiles.get("a").unwrap().label.as_deref(), Some("first"));
    assert_eq!(index.profiles.get("b").unwrap().last_used, Some(7));
    assert_eq!(index.profiles.get("b").unwrap().label, None);
}

#[test]
fn prune_and_forget_clear_the_active_profile() {
    let mut index = ProfilesIndex::empty();
    index.profiles.insert(s("missing"), ProfileIndexEntry::default());
    index.active_profile_id = Some(s("missing"));
    prune_profiles_index(&mut index, &[]);
    assert!(index.profiles.is_empty());
    assert!(index.active_profile_id.is_none());

    let mut index = ProfilesIndex::default();
    index.profiles.insert(s("a"), ProfileIndexEntry::default());
    index.profiles.insert(s("b"), ProfileIndexEntry::default());
    index.active_profile_id = Some(s("b"));
    forget_profiles(&mut index, &[s("a")]);
    assert_eq!(index.profiles.keys(), vec![s("b")]);
    assert_eq!(index.active_profile_id.as_deref(), Some("b"));
}

#[test]
fn update_entry_records_save() {
    let mut index = ProfilesIndex::empty();
    let tokens = tokens_from_api_key("sk-test");
    update_profiles_index_entry(&mut index, "k", Some(&tokens), Some(s("lab")), 100, true);
    let e = index.profiles.get("k").unwrap();
    assert_eq!(e.added_at, 100);
    assert_eq!(e.last_used, Some(100));
    assert!(e.is_api_key);
    assert_eq!(e.plan.as_deref(), Some("Key"));
    assert_eq!(e.label.as_deref(), Some("lab"));
    assert_eq!(index.active_profile_id.as_deref(), Some("k"));
    update_profiles_index_entry(&mut index, "k", None, None, 200, false);
    let e = index.profiles.get("k").unwrap();
    assert_eq!(e.added_at, 100);
    assert_eq!(e.last_used, Some(200));
    assert_eq!(e.label.as_deref(), Some("lab"));
}

#[test]
fn reserve_and_unreserve_round_trip() {
    let mut index = ProfilesIndex::empty();
    index.profiles.insert(s("a"), ProfileIndexEntry::blank());
    let (changed, msg) = set_profile_reserved(&mut index, "a", true, "a@b.com [reserved]");
    assert!(changed);
    assert_eq!(msg, "Reserved profile a@b.com");
    assert!(index.profiles.get("a").unwrap().reserved);
    let (changed, msg) = set_profile_reserved(&mut index, "a", true, "a@b.com [reserved]");
    assert!(!changed);
    assert_eq!(msg, "Profile a@b.com is already reserved.");
    let (changed, msg) = set_profile_reserved(&mut index, "a", false, "a@b.com [reserved]");
    assert!(changed);
    assert_eq!(msg, "Unreserved profile a@b.com");
    assert_eq!(index.profiles.get("a").unwrap(), &ProfileIndexEntry::blank());
    let (changed, msg) = set_profile_reserved(&mut index, "missing", false, "x");
    assert!(!changed);
    assert_eq!(msg, "Profile x is already unreserved.");
    assert!(index.profiles.get("missing").is_none());
}

#[test]
fn tokens_map_keeps_readable_and_reports_removed_profiles() {
    let reads = vec![
        ProfileRead { path: s("/p/good.json"), tokens: Ok(tokens_from_api_key("sk-1")), removal: Ok(()) },
        ProfileRead { path: s("/p/bad.json"), tokens: Err(s("Error: invalid JSON")), removal: Ok(()) },
        ProfileRead {
            path: s("/p/stuck.json"),
            tokens: Err(s("Error: invalid JSON")),
            removal: Err(s("permission denied")),
        },
    ];
    let load = load_profile_tokens_map(reads);
    assert!(load.map.get("good").unwrap().is_ok());
    assert_eq!(
        load.map.get("stuck").unwrap().as_ref().unwrap_err(),
        "Error: failed to remove invalid profile /p/stuck.json: permission denied"
    );
    assert!(load.map.get("bad").is_none());
    assert_eq!(load.removed_ids, vec![s("bad")]);
    assert_eq!(load.warnings, vec![s("Removed invalid profile /p/bad.json (invalid JSON)")]);
}

#[test]
fn removing_labels_of_several_profiles() {
    let ui = ui();
    let mut labels = Labels::new();
    assign_label(&mut labels, "one", "a", &ui, false).unwrap();
    assign_label(&mut labels, "two", "b", &ui, false).unwrap();
    assign_label(&mut labels, "three", "c", &ui, false).unwrap();
    remove_labels_for_ids(&mut labels, &[s("a"), s("c")]);
    assert_eq!(labels.len(), 1);
    assert_eq!(label_for_id(&labels, "b").unwrap(), "two");
}

#[test]
fn assigned_label_resolves_to_its_profile() {
    let ui = ui();
    let mut labels = Labels::new();
    assign_label(&mut labels, " vps ", "p1", &ui, false).unwrap();
    assert_eq!(resolve_label_id(&labels, "vps", &ui, false).unwrap(), "p1");
    assign_label(&mut labels, "vps", "p1", &ui, false).unwrap();
    assert_eq!(labels.len(), 1);
    assert!(assign_label(&mut labels, "vps", "p2", &ui, false).is_err());
    assert_eq!(resolve_label_id(&labels, "vps", &ui, false).unwrap(), "p1");
}
