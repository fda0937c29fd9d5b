use codex_profiles::outcomes::{
    deleted_message, dry_run_message, forget_deleted, invalid_selection_error, loaded_message,
    no_eligible_switch_error, profile_not_found, saved_message,
};
use codex_profiles::profile_store::{assign_label, Labels, ProfileIndexEntry, ProfilesIndex};
use codex_profiles::strmap::StrMap;
use codex_profiles::ui::Ui;

fn s(v: &str) -> String {
    v.to_string()
}

fn plain_ui() -> Ui {
    let mut ui = Ui::new("codex-switcher");
    ui.plain = true;
    ui
}

#[test]
fn command_messages() {
    assert_eq!(saved_message(true, "a@b.com"), "Saved profile a@b.com");
    assert_eq!(saved_message(false, "ignored"), "Saved profile");
    assert_eq!(loaded_message("work"), "Loaded profile work");
    assert_eq!(deleted_message(&[s("one")]), "Deleted profile one");
    assert_eq!(deleted_message(&[s("one"), s("two"), s("three")]), "Deleted 3 profiles.");
    assert_eq!(dry_run_message("vps"), "Dry run: best profile is vps");
    assert_eq!(
        invalid_selection_error("Error: invalid JSON in x"),
        "Error: selected profile is invalid. invalid JSON in x"
    );
    assert_eq!(invalid_selection_error("broken"), "Error: selected profile is invalid. broken");
}

#[test]
fn command_errors_with_hints() {
    let ui = plain_ui();
    assert_eq!(
        profile_not_found(&ui, false),
        "Selected profile not found. INFO: Run `codex-switcher list` to see saved profiles."
    );
    assert_eq!(
        no_eligible_switch_error(&ui, false),
        "Error: no eligible profile found for auto-switch.INFO: No switch performed because usage data is unavailable for all profiles."
    );
}

#[test]
fn deleting_profiles_forgets_their_records() {
    let ui = plain_ui();
    let mut usage: StrMap<u64> = StrMap::new();
    usage.insert(s("a"), 1);
    usage.insert(s("b"), 2);
    let mut labels = Labels::new();
    assign_label(&mut labels, "one", "a", &ui, false).unwrap();
    assign_label(&mut labels, "two", "b", &ui, false).unwrap();
    let mut index = ProfilesIndex::empty();
    index.profiles.insert(s("a"), ProfileIndexEntry::blank());
    index.profiles.insert(s("b"), ProfileIndexEntry::blank());
    index.active_profile_id = Some(s("a"));
    forget_deleted(&mut usage, &mut labels, &mut index, &[s("a")]);
    assert_eq!(usage.keys(), vec![s("b")]);
    assert_eq!(labels.keys(), vec![s("two")]);
    assert_eq!(index.profiles.keys(), vec![s("b")]);
    assert_eq!(index.active_profile_id, None);
}
