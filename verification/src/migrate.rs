//! Migrating saved profiles from another Codex directory: where to take them
//! from, which to copy, how their labels and records come along, and what
//! is reported.
use vstd::prelude::*;

use crate::auth::opt_seq;
use crate::num::{dec_seq, u64_to_string};
use crate::profile_store::{
    entry_view, index_view, label_texts, path_join, EntryView, Labels, ProfileIndexEntry,
};
use crate::strmap::{texts_view, StrMap};
use crate::text::{concat, owned, push_str, str_eq, trim_seq, trim_str};

verus! {

// ---------------------------------------------------------------------------
// Labels of migrated profiles
// ---------------------------------------------------------------------------

/// A label with a numeric suffix: `{label}-{k}`.
pub open spec fn suffixed_label(t: Seq<char>, k: nat) -> Seq<char> {
    t + seq!['-'] + dec_seq(k)
}

/// The first suffix from `k` on, below 10000, whose suffixed label is free.
pub open spec fn free_label_suffix(m: Map<Seq<char>, Seq<char>>, t: Seq<char>, k: nat) -> Option<nat>
    decreases 10000 - k,
{
    if k >= 10000 {
        None
    } else if !m.dom().contains(suffixed_label(t, k)) {
        Some(k)
    } else {
        free_label_suffix(m, t, k + 1)
    }
}

/// The label a migrated profile gets for the label it had: the trimmed label
/// where it is free or already names the profile, else the first free
/// `{label}-{k}` for `k` from 2 below 10000; none for an empty label or
/// where every suffix is taken.
pub open spec fn migrated_label(m: Map<Seq<char>, Seq<char>>, desired: Seq<char>, id: Seq<char>) -> Option<
    Seq<char>,
> {
    let t = trim_seq(desired);
    if t.len() == 0 {
        None
    } else if !m.dom().contains(t) || m[t] == id {
        Some(t)
    } else {
        match free_label_suffix(m, t, 2) {
            Some(k) => Some(suffixed_label(t, k)),
            None => None,
        }
    }
}

/// The labels after a migrated profile took its label.
pub open spec fn labels_after_migration(
    m: Map<Seq<char>, Seq<char>>,
    desired: Seq<char>,
    id: Seq<char>,
) -> Map<Seq<char>, Seq<char>> {
    match migrated_label(m, desired, id) {
        Some(l) => m.insert(l, id),
        None => m,
    }
}

proof fn lemma_free_suffix(m: Map<Seq<char>, Seq<char>>, t: Seq<char>, k: nat)
    ensures
        free_label_suffix(m, t, k) matches Some(j) ==> k <= j < 10000 && !m.dom().contains(
            suffixed_label(t, j),
        ),
    decreases 10000 - k,
{
    if k < 10000 && m.dom().contains(suffixed_label(t, k)) {
        lemma_free_suffix(m, t, k + 1);
    }
}

/// A migrated profile never takes a label that names another profile: every
/// such label keeps naming its profile, and the label it gets names it.
pub proof fn lemma_migration_keeps_other_labels(
    m: Map<Seq<char>, Seq<char>>,
    desired: Seq<char>,
    id: Seq<char>,
)
    ensures
        forall|l: Seq<char>| #[trigger]
            m.dom().contains(l) && m[l] != id ==> labels_after_migration(m, desired, id).dom().contains(l)
                && labels_after_migration(m, desired, id)[l] == m[l],
        migrated_label(m, desired, id) matches Some(l) ==> labels_after_migration(
            m,
            desired,
            id,
        )[l] == id,
{
    lemma_free_suffix(m, trim_seq(desired), 2);
}

/// Gives a migrated profile its label, renaming it with a numeric suffix
/// where another profile holds it.
pub fn assign_migrated_label(labels: &mut Labels, desired: &str, id: &str) -> (res: Option<String>)
    ensures
        opt_seq(res) == migrated_label(label_texts(old(labels)@), desired@, id@),
        label_texts(final(labels)@) == labels_after_migration(
            label_texts(old(labels)@),
            desired@,
            id@,
        ),
{
    let ghost m = label_texts(labels@);
    let trimmed = trim_str(desired);
    if trimmed.as_str().is_empty() {
        return None;
    }
    let taken = match labels.get(trimmed.as_str()) {
        Some(existing) => !str_eq(existing.as_str(), id),
        None => false,
    };
    if !taken {
        let ghost before = labels@;
        labels.insert(trimmed.clone(), owned(id));
        proof {
            assert(label_texts(labels@) =~= m.insert(trimmed@, id@));
            if m.dom().contains(trimmed@) {
                assert(m.insert(trimmed@, id@) =~= m.insert(trimmed@, id@));
            }
        }
        return Some(trimmed);
    }
    assert(m.dom().contains(trimmed@) && m[trimmed@] != id@);
    let mut suffix: u64 = 2;
    while suffix < 10000
        invariant
            2 <= suffix <= 10000,
            m == label_texts(labels@),
            m == label_texts(old(labels)@),
            trimmed@ == trim_seq(desired@),
            trimmed@.len() > 0,
            m.dom().contains(trimmed@) && m[trimmed@] != id@,
            free_label_suffix(m, trimmed@, 2) == free_label_suffix(m, trimmed@, suffix as nat),
        decreases 10000 - suffix,
    {
        proof {
            reveal_strlit("-");
        }
        let mut candidate = concat(trimmed.as_str(), "-");
        push_str(&mut candidate, u64_to_string(suffix).as_str());
        assert(candidate@ =~= suffixed_label(trimmed@, suffix as nat));
        if !labels.contains_key(candidate.as_str()) {
            proof {
                assert(!m.dom().contains(candidate@));
                assert(free_label_suffix(m, trimmed@, suffix as nat) == Some(suffix as nat));
                assert(migrated_label(m, desired@, id@) == Some(candidate@));
            }
            labels.insert(candidate.clone(), owned(id));
            proof {
                assert(label_texts(labels@) =~= m.insert(candidate@, id@));
            }
            return Some(candidate);
        }
        suffix = suffix + 1;
    }
    None
}

// ---------------------------------------------------------------------------
// Where to migrate from
// ---------------------------------------------------------------------------

/// A directory that may be a Codex directory, with what exists in it: a
/// `profiles` directory, and a `.codex/profiles` directory.
#[derive(Clone, Debug)]
pub struct MigrationCandidate {
    pub path: String,
    pub has_profiles: bool,
    pub nested_has_profiles: bool,
}

/// The Codex directory of a candidate: itself where it holds `profiles`,
/// else its `.codex` where that does, else itself.
pub open spec fn normalized_source(c: MigrationCandidate) -> Seq<char> {
    if c.has_profiles {
        c.path@
    } else if c.nested_has_profiles {
        path_join(c.path@, ".codex"@)
    } else {
        c.path@
    }
}

/// The Codex directory of a candidate.
pub fn normalize_source_codex_dir(candidate: &MigrationCandidate) -> (res: String)
    ensures
        res@ == normalized_source(*candidate),
{
    if candidate.has_profiles {
        return candidate.path.clone();
    }
    if candidate.nested_has_profiles {
        return crate::common::join_path(candidate.path.as_str(), ".codex");
    }
    candidate.path.clone()
}

/// Whether a candidate can be migrated from into `dest_profiles`: its
/// `profiles` directory exists and is not the destination.
pub open spec fn usable_source(c: MigrationCandidate, dest_profiles: Seq<char>) -> bool {
    (c.has_profiles || c.nested_has_profiles) && path_join(normalized_source(c), "profiles"@)
        != dest_profiles
}

/// The Codex directory of the first candidate that can be migrated from.
pub fn pick_migration_source_codex(candidates: &[MigrationCandidate], destination_profiles: &str) -> (res:
    Option<String>)
    ensures
        match res {
            Some(s) => exists|i: int|
                0 <= i < candidates@.len() && usable_source(
                    #[trigger] candidates@[i],
                    destination_profiles@,
                ) && s@ == normalized_source(candidates@[i]) && forall|j: int|
                    0 <= j < i ==> !usable_source(#[trigger] candidates@[j], destination_profiles@),
            None => forall|j: int|
                0 <= j < candidates@.len() ==> !usable_source(
                    #[trigger] candidates@[j],
                    destination_profiles@,
                ),
        },
{
    let mut i: usize = 0;
    while i < candidates.len()
        invariant
            i <= candidates.len(),
            forall|j: int|
                0 <= j < i ==> !usable_source(#[trigger] candidates@[j], destination_profiles@),
        decreases candidates.len() - i,
    {
        let normalized = normalize_source_codex_dir(&candidates[i]);
        let source_profiles = crate::common::join_path(normalized.as_str(), "profiles");
        let exists = candidates[i].has_profiles || candidates[i].nested_has_profiles;
        if exists && !str_eq(source_profiles.as_str(), destination_profiles) {
            return Some(normalized);
        }
        i = i + 1;
    }
    None
}

/// The directories to look for profiles in, in order and each once: the
/// directory that auth is read from, then the home `.codex`; empty ones are
/// left out.
pub open spec fn candidate_dirs(auth_codex: Seq<char>, home_codex: Option<Seq<char>>) -> Seq<Seq<char>> {
    let first = if auth_codex.len() > 0 {
        seq![auth_codex]
    } else {
        Seq::empty()
    };
    match home_codex {
        Some(h) => if h.len() > 0 && !first.contains(h) {
            first.push(h)
        } else {
            first
        },
        None => first,
    }
}

/// The directories to look for profiles in.
pub fn migration_candidate_dirs(auth_codex: &str, home_codex: Option<&str>) -> (res: Vec<String>)
    ensures
        crate::strmap::texts_view(res@) == candidate_dirs(auth_codex@, opt_str(home_codex)),
{
    let mut out: Vec<String> = Vec::new();
    if !auth_codex.is_empty() {
        out.push(owned(auth_codex));
    }
    proof {
        let first = if auth_codex@.len() > 0 {
            seq![auth_codex@]
        } else {
            Seq::<Seq<char>>::empty()
        };
        assert(crate::strmap::texts_view(out@) =~= first);
    }
    match home_codex {
        Some(h) => {
            if !h.is_empty() && !(!auth_codex.is_empty() && str_eq(auth_codex, h)) {
                let ghost before = crate::strmap::texts_view(out@);
                out.push(owned(h));
                proof {
                    assert(crate::strmap::texts_view(out@) =~= before.push(h@));
                }
            }
            proof {
                if auth_codex@.len() > 0 {
                    assert(seq![auth_codex@].contains(h@) <==> auth_codex@ == h@) by {
                        if seq![auth_codex@].contains(h@) {
                            assert(seq![auth_codex@][0] == auth_codex@);
                        }
                        if auth_codex@ == h@ {
                            assert(seq![auth_codex@][0] == h@);
                        }
                    }
                }
            }
        },
        None => {},
    }
    out
}

/// An optional text.
pub open spec fn opt_str(o: Option<&str>) -> Option<Seq<char>> {
    match o {
        Some(s) => Some(s@),
        None => None,
    }
}

/// Whether a `--from` value was given: present and not blank.
pub open spec fn from_given(from: Option<Seq<char>>) -> bool {
    from matches Some(f) && trim_seq(f).len() > 0
}

/// The message where no source directory could be found.
pub open spec fn no_source_error(command_name: Seq<char>) -> Seq<char> {
    "Error: could not auto-detect source profiles directory. Use `"@ + command_name
        + " migrate --from <path>`."@
}

/// Where to migrate from: the directory given, normalized, where a non-empty
/// one is given; else the first candidate that can be migrated from; else an
/// error that says how to give one.
pub fn resolve_migration_source_codex(
    from: Option<&MigrationCandidate>,
    candidates: &[MigrationCandidate],
    destination_profiles: &str,
    command_name: &str,
) -> (res: Result<String, String>)
    ensures
        from matches Some(f) && f.path@.len() > 0 ==> (res matches Ok(s) && s@ == normalized_source(
            *from.unwrap(),
        )),
        !(from matches Some(f) && f.path@.len() > 0) ==> match res {
            Ok(s) => exists|i: int|
                0 <= i < candidates@.len() && usable_source(
                    #[trigger] candidates@[i],
                    destination_profiles@,
                ) && s@ == normalized_source(candidates@[i]) && forall|j: int|
                    0 <= j < i ==> !usable_source(#[trigger] candidates@[j], destination_profiles@),
            Err(e) => e@ == no_source_error(command_name@) && forall|j: int|
                0 <= j < candidates@.len() ==> !usable_source(
                    #[trigger] candidates@[j],
                    destination_profiles@,
                ),
        },
{
    match from {
        Some(f) => {
            if !f.path.as_str().is_empty() {
                return Ok(normalize_source_codex_dir(f));
            }
        },
        None => {},
    }
    match pick_migration_source_codex(candidates, destination_profiles) {
        Some(s) => Ok(s),
        None => {
            let mut e = owned("Error: could not auto-detect source profiles directory. Use `");
            push_str(&mut e, command_name);
            push_str(&mut e, " migrate --from <path>`.");
            Err(e)
        },
    }
}

/// The message where the source and the destination are the same and a
/// source was given.
pub open spec fn same_dirs_error() -> Seq<char> {
    "Error: source and destination profile directories are the same; nothing to migrate."@
}

/// The message where the source profiles directory is missing.
pub open spec fn source_missing_error(source_profiles: Seq<char>) -> Seq<char> {
    "Error: source profiles directory not found: "@ + source_profiles
}

/// Whether a migration goes ahead (`Ok(true)`), is skipped because the
/// source and the destination are the same and no source was given
/// (`Ok(false)`), or is refused: the same directories with a source given,
/// or a missing source directory.
pub fn migration_precheck(
    from: Option<&str>,
    source_profiles: &str,
    dest_profiles: &str,
    source_is_dir: bool,
) -> (res: Result<bool, String>)
    ensures
        source_profiles@ == dest_profiles@ ==> if from_given(opt_str(from)) {
            res matches Err(e) && e@ == same_dirs_error()
        } else {
            res matches Ok(go) && !go
        },
        source_profiles@ != dest_profiles@ && !source_is_dir ==> (res matches Err(e) && e@
            == source_missing_error(source_profiles@)),
        source_profiles@ != dest_profiles@ && source_is_dir ==> (res matches Ok(go) && go),
{
    let given = match from {
        Some(f) => !trim_str(f).as_str().is_empty(),
        None => false,
    };
    if str_eq(source_profiles, dest_profiles) {
        if !given {
            return Ok(false);
        }
        return Err(
            owned("Error: source and destination profile directories are the same; nothing to migrate."),
        );
    }
    if !source_is_dir {
        return Err(concat("Error: source profiles directory not found: ", source_profiles));
    }
    Ok(true)
}

/// What a skipped migration reports, without color: that it was skipped, and
/// how to keep separate storage.
pub open spec fn skipped_report_text(plain: bool) -> Seq<char> {
    "✅ "@ + "Migration skipped: source and destination are already the same profile storage."@
        + "\n"@ + crate::ui::hint_text(
        "To keep separate switcher storage, set CODEX_PROFILES_HOME to another directory and run migrate again."@,
        plain,
    )
}

/// What a skipped migration reports.
pub fn migration_skipped_report(ui: &crate::ui::Ui, use_color: bool) -> (res: String)
    ensures
        !use_color || ui.plain ==> res@ == skipped_report_text(ui.plain),
        use_color && !ui.plain ==> exists|a: Seq<char>, h: Seq<char>|
            #![trigger crate::ui::styled_as(a, "✅ "@ + "Migration skipped: source and destination are already the same profile storage."@, crate::ui::paint_prefix(crate::ui::Paint::GreenBold)), crate::ui::styled_as(h, crate::ui::hint_text("To keep separate switcher storage, set CODEX_PROFILES_HOME to another directory and run migrate again."@, false), crate::ui::paint_prefix(crate::ui::Paint::Italic))]
            crate::ui::styled_as(
                a,
                "✅ "@ + "Migration skipped: source and destination are already the same profile storage."@,
                crate::ui::paint_prefix(crate::ui::Paint::GreenBold),
            ) && crate::ui::styled_as(
                h,
                crate::ui::hint_text(
                    "To keep separate switcher storage, set CODEX_PROFILES_HOME to another directory and run migrate again."@,
                    false,
                ),
                crate::ui::paint_prefix(crate::ui::Paint::Italic),
            ) && res@ == a + "\n"@ + h,
{
    let message = ui.format_action(
        "Migration skipped: source and destination are already the same profile storage.",
        use_color,
    );
    let hint = ui.format_hint(
        "To keep separate switcher storage, set CODEX_PROFILES_HOME to another directory and run migrate again.",
        use_color,
    );
    crate::text::concat3(message.as_str(), "\n", hint.as_str())
}

/// The counts of a finished migration.
pub open spec fn migration_summary(counts: MigrationCounts) -> Seq<char> {
    "Migration complete: copied="@ + dec_seq(counts.copied as nat) + ", overwritten="@
        + dec_seq(counts.overwritten as nat) + ", skipped="@ + dec_seq(counts.skipped as nat)
        + ", labels="@ + dec_seq(counts.labels as nat)
}

/// The summary of a finished migration, without color.
pub open spec fn migration_report_text(
    counts: MigrationCounts,
    source_profiles: Seq<char>,
    dest_profiles: Seq<char>,
) -> Seq<char> {
    "✅ "@ + ("Migration complete: copied="@ + dec_seq(counts.copied as nat) + ", overwritten="@
        + dec_seq(counts.overwritten as nat) + ", skipped="@ + dec_seq(counts.skipped as nat)
        + ", labels="@ + dec_seq(counts.labels as nat)) + "\nSource preserved: "@ + source_profiles
        + "\nDestination: "@ + dest_profiles
}

/// The summary of a finished migration: the counts, then where the profiles
/// came from (left in place) and where they went.
pub fn migration_report(
    counts: MigrationCounts,
    source_profiles: &str,
    dest_profiles: &str,
    ui: &crate::ui::Ui,
    use_color: bool,
) -> (res: String)
    ensures
        !use_color || ui.plain ==> res@ == migration_report_text(counts, source_profiles@, dest_profiles@),
        use_color && !ui.plain ==> exists|a: Seq<char>|
            #![trigger crate::ui::styled_as(a, "✅ "@ + migration_summary(counts), crate::ui::paint_prefix(crate::ui::Paint::GreenBold))]
            crate::ui::styled_as(
                a,
                "✅ "@ + migration_summary(counts),
                crate::ui::paint_prefix(crate::ui::Paint::GreenBold),
            ) && res@ == a + "\nSource preserved: "@ + source_profiles@ + "\nDestination: "@
                + dest_profiles@,
{
    let mut summary = owned("Migration complete: copied=");
    push_str(&mut summary, u64_to_string(counts.copied as u64).as_str());
    push_str(&mut summary, ", overwritten=");
    push_str(&mut summary, u64_to_string(counts.overwritten as u64).as_str());
    push_str(&mut summary, ", skipped=");
    push_str(&mut summary, u64_to_string(counts.skipped as u64).as_str());
    push_str(&mut summary, ", labels=");
    push_str(&mut summary, u64_to_string(counts.labels as u64).as_str());
    assert(summary@ =~= migration_summary(counts));
    let mut out = ui.format_action(summary.as_str(), use_color);
    let ghost a = out@;
    push_str(&mut out, "\nSource preserved: ");
    push_str(&mut out, source_profiles);
    push_str(&mut out, "\nDestination: ");
    push_str(&mut out, dest_profiles);
    proof {
        if use_color && !ui.plain {
            assert(crate::ui::styled_as(a, "✅ "@ + migration_summary(counts), crate::ui::paint_prefix(crate::ui::Paint::GreenBold)));
            assert(out@ =~= a + "\nSource preserved: "@ + source_profiles@ + "\nDestination: "@ + dest_profiles@);
        }
    }
    out
}

/// What reading one source profile file gave: nothing where it was read,
/// else the error.
#[derive(Clone, Debug)]
pub struct SourceRead {
    pub path: String,
    pub error: Option<String>,
}

/// The warning for a source profile that cannot be read.
pub open spec fn invalid_source_warning(path: Seq<char>, err: Seq<char>) -> Seq<char> {
    "Skipping invalid source profile "@ + path + " ("@ + crate::ui::normalized_error(err) + ")"@
}

/// Whether a read gives a readable source profile with the id.
pub open spec fn read_gives(r: SourceRead, id: Seq<char>) -> bool {
    crate::profile_store::profile_id_of(r.path@) == Some(id) && r.error is None
}

/// The warnings for the source profiles that cannot be read, in order.
pub open spec fn source_warnings(reads: Seq<SourceRead>) -> Seq<Seq<char>>
    decreases reads.len(),
{
    if reads.len() == 0 {
        Seq::empty()
    } else {
        let prev = source_warnings(reads.drop_last());
        let r = reads.last();
        match (crate::profile_store::profile_id_of(r.path@), r.error) {
            (Some(_), Some(e)) => prev.push(invalid_source_warning(r.path@, e@)),
            _ => prev,
        }
    }
}

/// The ids of the readable source profiles, sorted and each once, with the
/// warnings for the unreadable ones.
pub fn migration_source_ids(reads: &[SourceRead]) -> (res: (Vec<String>, Vec<String>))
    ensures
        crate::strmap::texts_sorted(texts_view(res.0@)),
        forall|x: Seq<char>|
            texts_view(res.0@).contains(x) <==> exists|i: int|
                0 <= i < reads@.len() && read_gives(#[trigger] reads@[i], x),
        texts_view(res.1@) == source_warnings(reads@),
{
    let mut ids: StrMap<bool> = StrMap::new();
    let mut warnings: Vec<String> = Vec::new();
    let mut i: usize = 0;
    proof {
        assert(reads@.take(0) =~= Seq::<SourceRead>::empty());
        assert(texts_view(warnings@) =~= Seq::<Seq<char>>::empty());
    }
    while i < reads.len()
        invariant
            i <= reads.len(),
            forall|x: Seq<char>|
                #[trigger] ids@.dom().contains(x) <==> exists|j: int|
                    0 <= j < i && read_gives(#[trigger] reads@[j], x),
            texts_view(warnings@) == source_warnings(reads@.take(i as int)),
        decreases reads.len() - i,
    {
        proof {
            assert(reads@.take(i + 1).drop_last() =~= reads@.take(i as int));
            assert(reads@.take(i + 1).last() == reads@[i as int]);
        }
        let ghost before = ids@;
        let r = &reads[i];
        match crate::profile_store::profile_id_from_path(r.path.as_str()) {
            None => {},
            Some(id) => match &r.error {
                None => {
                    ids.insert(id, true);
                },
                Some(e) => {
                    let mut w = owned("Skipping invalid source profile ");
                    push_str(&mut w, r.path.as_str());
                    push_str(&mut w, " (");
                    push_str(&mut w, crate::ui::normalize_error(e.as_str()).as_str());
                    push_str(&mut w, ")");
                    let ghost wb = texts_view(warnings@);
                    warnings.push(w);
                    proof {
                        assert(texts_view(warnings@) =~= wb.push(warnings@.last()@));
                    }
                },
            },
        }
        proof {
            assert forall|x: Seq<char>|
                #[trigger] ids@.dom().contains(x) <==> exists|j: int|
                    0 <= j < i + 1 && read_gives(#[trigger] reads@[j], x) by {
                if exists|j: int| 0 <= j < i + 1 && read_gives(#[trigger] reads@[j], x) {
                    let j = choose|j: int| 0 <= j < i + 1 && read_gives(#[trigger] reads@[j], x);
                    if j < i {
                        assert(before.dom().contains(x));
                    }
                }
            }
        }
        i = i + 1;
    }
    proof {
        assert(reads@.take(reads.len() as int) =~= reads@);
    }
    let keys = ids.keys();
    proof {
        assert(texts_view(keys@) =~= ids.key_seq());
    }
    (keys, warnings)
}

// ---------------------------------------------------------------------------
// Which profiles are copied, and what comes along
// ---------------------------------------------------------------------------

/// A saved profile of the source: its id, whether its file is there, and
/// whether the destination already has a file for it.
#[derive(Clone, Debug)]
pub struct MigrationSource {
    pub id: String,
    pub source_is_file: bool,
    pub dest_is_file: bool,
}

/// How many profiles were copied new, copied over an existing one, skipped
/// because one existed, and how many labels came along.
#[derive(Clone, Copy, Debug)]
pub struct MigrationCounts {
    pub copied: usize,
    pub overwritten: usize,
    pub skipped: usize,
    pub labels: usize,
}

/// What a migration has done so far: the labels, the last-used times and the
/// index entries of the destination, the ids to copy in order, and the
/// counts (copied, overwritten, skipped, labels).
pub type MigrationState = (
    Map<Seq<char>, Seq<char>>,
    Map<Seq<char>, u64>,
    Map<Seq<char>, EntryView>,
    Seq<Seq<char>>,
    (nat, nat, nat, nat),
);

/// One source profile taken into a migration. A profile whose source file is
/// gone is passed over; one the destination has is skipped unless
/// overwriting; otherwise it is copied and its index entry comes along with
/// its label (renamed where taken) and a later last-used time, or, where the
/// source index has no entry, it gets a blank one and a last-used time of 0
/// where it has none.
pub open spec fn migration_step(
    st: MigrationState,
    src: MigrationSource,
    source_index: Map<Seq<char>, EntryView>,
    overwrite: bool,
) -> MigrationState {
    let id = src.id@;
    let c = st.4;
    if !src.source_is_file {
        st
    } else if src.dest_is_file && !overwrite {
        (st.0, st.1, st.2, st.3, (c.0, c.1, c.2 + 1, c.3))
    } else {
        let copies = st.3.push(id);
        let counts0 = if src.dest_is_file {
            (c.0, c.1 + 1, c.2, c.3)
        } else {
            (c.0 + 1, c.1, c.2, c.3)
        };
        if source_index.dom().contains(id) {
            let e = source_index[id];
            let (label, labels, counts) = match e.3 {
                Some(l) => (
                    migrated_label(st.0, l, id),
                    labels_after_migration(st.0, l, id),
                    if migrated_label(st.0, l, id) is Some {
                        (counts0.0, counts0.1, counts0.2, counts0.3 + 1)
                    } else {
                        counts0
                    },
                ),
                None => (None, st.0, counts0),
            };
            let src_last = match e.5 {
                Some(t) => t,
                None => 0,
            };
            let dest_last = if st.1.dom().contains(id) {
                st.1[id]
            } else {
                0
            };
            let usage = if src_last > dest_last || !st.1.dom().contains(id) {
                st.1.insert(id, src_last)
            } else {
                st.1
            };
            (labels, usage, st.2.insert(id, (e.0, e.1, e.2, label, e.4, e.5, e.6, e.7)), copies, counts)
        } else {
            let usage = if st.1.dom().contains(id) {
                st.1
            } else {
                st.1.insert(id, 0)
            };
            let index = if st.2.dom().contains(id) {
                st.2
            } else {
                st.2.insert(id, entry_view(crate::profile_store::blank_entry()))
            };
            (st.0, usage, index, copies, counts0)
        }
    }
}

/// A migration of the source profiles in order.
pub open spec fn migration_fold(
    st: MigrationState,
    sources: Seq<MigrationSource>,
    source_index: Map<Seq<char>, EntryView>,
    overwrite: bool,
) -> MigrationState
    decreases sources.len(),
{
    if sources.len() == 0 {
        st
    } else {
        migration_step(
            migration_fold(st, sources.drop_last(), source_index, overwrite),
            sources.last(),
            source_index,
            overwrite,
        )
    }
}

/// Plans a migration: takes each source profile into the destination's
/// labels, last-used times and index, and returns
/// the ids whose files are to be copied, in order, with the counts. The
/// caller copies the files and saves the records.
pub fn plan_migration(
    sources: &[MigrationSource],
    source_index: &StrMap<ProfileIndexEntry>,
    overwrite: bool,
    labels: &mut Labels,
    usage_map: &mut StrMap<u64>,
    index: &mut StrMap<ProfileIndexEntry>,
) -> (res: (Vec<String>, MigrationCounts))
    ensures
        ({
            let st = migration_fold(
                (
                    label_texts(old(labels)@),
                    old(usage_map)@,
                    index_view(old(index)@),
                    Seq::empty(),
                    (0, 0, 0, 0),
                ),
                sources@,
                index_view(source_index@),
                overwrite,
            );
            &&& label_texts(final(labels)@) == st.0
            &&& final(usage_map)@ == st.1
            &&& index_view(final(index)@) == st.2
            &&& texts_view(res.0@) == st.3
            &&& (res.1.copied as nat, res.1.overwritten as nat, res.1.skipped as nat, res.1.labels as nat)
                == st.4
        }),
{
    let ghost init: MigrationState = (
        label_texts(labels@),
        usage_map@,
        index_view(index@),
        Seq::empty(),
        (0, 0, 0, 0),
    );
    let ghost si = index_view(source_index@);
    let mut copies: Vec<String> = Vec::new();
    let mut copied: usize = 0;
    let mut overwritten: usize = 0;
    let mut skipped: usize = 0;
    let mut imported: usize = 0;
    let mut i: usize = 0;
    proof {
        assert(sources@.take(0) =~= Seq::<MigrationSource>::empty());
        assert(texts_view(copies@) =~= Seq::<Seq<char>>::empty());
    }
    while i < sources.len()
        invariant
            i <= sources.len(),
            si == index_view(source_index@),
            copied + overwritten + skipped <= i,
            imported <= i,
            migration_fold(init, sources@.take(i as int), si, overwrite) == (
                label_texts(labels@),
                usage_map@,
                index_view(index@),
                texts_view(copies@),
                (copied as nat, overwritten as nat, skipped as nat, imported as nat),
            ),
        decreases sources.len() - i,
    {
        let ghost st = migration_fold(init, sources@.take(i as int), si, overwrite);
        proof {
            assert(sources@.take(i + 1).drop_last() =~= sources@.take(i as int));
            assert(sources@.take(i + 1).last() == sources@[i as int]);
        }
        let src = &sources[i];
        let id = src.id.as_str();
        if !src.source_is_file {
        } else if src.dest_is_file && !overwrite {
            skipped = skipped + 1;
        } else {
            let ghost c0 = texts_view(copies@);
            copies.push(src.id.clone());
            proof {
                assert(texts_view(copies@) =~= c0.push(id@));
            }
            if src.dest_is_file {
                overwritten = overwritten + 1;
            } else {
                copied = copied + 1;
            }
            match source_index.get(id) {
                Some(src_entry) => {
                    let ghost ev = entry_view(*src_entry);
                    assert(si[id@] == ev);
                    let mut entry = src_entry.clone_entry();
                    match &src_entry.label {
                        Some(l) => {
                            let final_label = assign_migrated_label(labels, l.as_str(), id);
                            if final_label.is_some() {
                                imported = imported + 1;
                            }
                            entry.label = final_label;
                        },
                        None => {},
                    }
                    let src_last = match entry.last_used {
                        Some(t) => t,
                        None => 0,
                    };
                    let (dest_last, present) = match usage_map.get(id) {
                        Some(t) => (*t, true),
                        None => (0, false),
                    };
                    if src_last > dest_last || !present {
                        usage_map.insert(src.id.clone(), src_last);
                    }
                    let ghost ib = index_view(index@);
                    index.insert(src.id.clone(), entry);
                    proof {
                        assert(index_view(index@) =~= ib.insert(id@, index_view(index@)[id@]));
                    }
                },
                None => {
                    if !usage_map.contains_key(id) {
                        usage_map.insert(src.id.clone(), 0);
                    }
                    if !index.contains_key(id) {
                        let ghost ib = index_view(index@);
                        index.insert(src.id.clone(), ProfileIndexEntry::blank());
                        proof {
                            assert(index_view(index@) =~= ib.insert(
                                id@,
                                entry_view(crate::profile_store::blank_entry()),
                            ));
                        }
                    }
                },
            }
        }
        i = i + 1;
    }
    proof {
        assert(sources@.take(sources.len() as int) =~= sources@);
    }
    (copies, MigrationCounts { copied, overwritten, skipped, labels: imported })
}

} // verus!
