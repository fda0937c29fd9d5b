use codex_profiles::migrate::{
    assign_migrated_label, migration_candidate_dirs, migration_precheck, migration_report,
    migration_skipped_report, migration_source_ids, normalize_source_codex_dir,
    pick_migration_source_codex, plan_migration, resolve_migration_source_codex,
    MigrationCandidate, MigrationCounts, MigrationSource, SourceRead,
};
use codex_profiles::profile_store::{Labels, ProfileIndexEntry};
use codex_profiles::strmap::StrMap;
use codex_profiles::ui::Ui;

fn s(v: &str) -> String {
    v.to_string()
}

fn cand(path: &str, has: bool, nested: bool) -> MigrationCandidate {
    MigrationCandidate { path: s(path), has_profiles: has, nested_has_profiles: nested }
}

fn plain_ui() -> Ui {
    let mut ui = Ui::new("codex-switcher");
    ui.plain = true;
    ui
}

#[test]
fn migrated_label_keeps_free_or_own_label_and_renames_taken_one() {
    let mut labels = Labels::new();
    assert_eq!(assign_migrated_label(&mut labels, " work ", "a"), Some(s("work")));
    assert_eq!(assign_migrated_label(&mut labels, "work", "a"), Some(s("work")));
    assert_eq!(assign_migrated_label(&mut labels, "work", "b"), Some(s("work-2")));
    assert_eq!(assign_migrated_label(&mut labels, "work", "c"), Some(s("work-3")));
    assert_eq!(assign_migrated_label(&mut labels, "   ", "d"), None);
    assert_eq!(labels.get("work").map(|v| v.as_str()), Some("a"));
    assert_eq!(labels.get("work-2").map(|v| v.as_str()), Some("b"));
    assert_eq!(labels.get("work-3").map(|v| v.as_str()), Some("c"));
    assert_eq!(labels.len(), 3);
}

#[test]
fn normalize_source_codex_dir_prefers_nested_codex() {
    assert_eq!(normalize_source_codex_dir(&cand("/home/u", false, true)), "/home/u/.codex");
    assert_eq!(normalize_source_codex_dir(&cand("/home/u/.codex", true, true)), "/home/u/.codex");
    assert_eq!(normalize_source_codex_dir(&cand("/nowhere", false, false)), "/nowhere");
}

#[test]
fn pick_migration_source_skips_destination_and_picks_existing_source() {
    let candidates = vec![
        cand("/dest/.codex", true, false),
        cand("/empty", false, false),
        cand("/home/u", false, true),
    ];
    assert_eq!(
        pick_migration_source_codex(&candidates, "/dest/.codex/profiles"),
        Some(s("/home/u/.codex"))
    );
    assert_eq!(pick_migration_source_codex(&candidates[..2], "/dest/.codex/profiles"), None);
}

#[test]
fn resolve_migration_source_prefers_given_directory() {
    let given = cand("/given", true, false);
    let none: Vec<MigrationCandidate> = Vec::new();
    assert_eq!(
        resolve_migration_source_codex(Some(&given), &none, "/dest/profiles", "codex-switcher"),
        Ok(s("/given"))
    );
    assert_eq!(
        resolve_migration_source_codex(None, &none, "/dest/profiles", "codex-switcher"),
        Err(s("Error: could not auto-detect source profiles directory. Use `codex-switcher migrate --from <path>`."))
    );
}

#[test]
fn migration_candidate_dirs_are_unique_and_not_empty() {
    assert_eq!(migration_candidate_dirs("/a", Some("/a")), vec![s("/a")]);
    assert_eq!(migration_candidate_dirs("", Some("/h")), vec![s("/h")]);
    assert_eq!(migration_candidate_dirs("/a", Some("/h")), vec![s("/a"), s("/h")]);
    assert_eq!(migration_candidate_dirs("/a", None), vec![s("/a")]);
}

#[test]
fn migration_precheck_outcomes() {
    assert_eq!(migration_precheck(None, "/p", "/p", true), Ok(false));
    assert_eq!(migration_precheck(Some("  "), "/p", "/p", true), Ok(false));
    assert_eq!(
        migration_precheck(Some("/x"), "/p", "/p", true),
        Err(s("Error: source and destination profile directories are the same; nothing to migrate."))
    );
    assert_eq!(
        migration_precheck(None, "/src", "/p", false),
        Err(s("Error: source profiles directory not found: /src"))
    );
    assert_eq!(migration_precheck(None, "/src", "/p", true), Ok(true));
}

#[test]
fn migration_plan_copies_skips_and_brings_labels() {
    let mut source_index: StrMap<ProfileIndexEntry> = StrMap::new();
    let mut entry = ProfileIndexEntry::blank();
    entry.label = Some(s("work"));
    entry.last_used = Some(50);
    source_index.insert(s("a"), entry);
    let sources = vec![
        MigrationSource { id: s("a"), source_is_file: true, dest_is_file: false },
        MigrationSource { id: s("b"), source_is_file: true, dest_is_file: true },
        MigrationSource { id: s("c"), source_is_file: false, dest_is_file: false },
        MigrationSource { id: s("d"), source_is_file: true, dest_is_file: false },
    ];
    let mut labels = Labels::new();
    labels.insert(s("work"), s("zzz"));
    let mut usage: StrMap<u64> = StrMap::new();
    usage.insert(s("a"), 10);
    let mut index: StrMap<ProfileIndexEntry> = StrMap::new();
    let (copies, counts) =
        plan_migration(&sources, &source_index, false, &mut labels, &mut usage, &mut index);
    assert_eq!(copies, vec![s("a"), s("d")]);
    assert_eq!((counts.copied, counts.overwritten, counts.skipped, counts.labels), (2, 0, 1, 1));
    assert_eq!(labels.get("work-2").map(|v| v.as_str()), Some("a"));
    assert_eq!(index.get("a").unwrap().label.as_deref(), Some("work-2"));
    assert_eq!(usage.get("a").copied(), Some(50));
    assert_eq!(usage.get("d").copied(), Some(0));
    assert!(index.get("d").is_some());
    assert!(index.get("b").is_none());

    let mut labels2 = Labels::new();
    let mut usage2: StrMap<u64> = StrMap::new();
    let mut index2: StrMap<ProfileIndexEntry> = StrMap::new();
    let (copies2, counts2) =
        plan_migration(&sources, &source_index, true, &mut labels2, &mut usage2, &mut index2);
    assert_eq!(copies2, vec![s("a"), s("b"), s("d")]);
    assert_eq!((counts2.copied, counts2.overwritten, counts2.skipped), (2, 1, 0));
}

#[test]
fn migration_reports() {
    let ui = plain_ui();
    let counts = MigrationCounts { copied: 2, overwritten: 1, skipped: 3, labels: 1 };
    assert_eq!(
        migration_report(counts, "/src/profiles", "/dst/profiles", &ui, false),
        "✅ Migration complete: copied=2, overwritten=1, skipped=3, labels=1\nSource preserved: /src/profiles\nDestination: /dst/profiles"
    );
    assert_eq!(
        migration_skipped_report(&ui, false),
        "✅ Migration skipped: source and destination are already the same profile storage.\nINFO: To keep separate switcher storage, set CODEX_PROFILES_HOME to another directory and run migrate again."
    );
}

#[test]
fn migration_source_ids_sorted_with_warnings() {
    let reads = vec![
        SourceRead { path: s("/p/b.json"), error: None },
        SourceRead { path: s("/p/bad.json"), error: Some(s("Error: broken")) },
        SourceRead { path: s("/p/a.json"), error: None },
    ];
    let (ids, warnings) = migration_source_ids(&reads);
    assert_eq!(ids, vec![s("a"), s("b")]);
    assert_eq!(warnings, vec![s("Skipping invalid source profile /p/bad.json (broken)")]);
}
