//! Saved profiles on disk and their labels: the label map, the profiles
//! index and the names of profile files.
use crate::auth::{
    account_id_of, email_and_plan, extract_email_and_plan, is_api_key_profile, is_api_key_tokens,
    opt_seq, token_account_id, Tokens,
};
use crate::strmap::{listed_text, texts_sorted, texts_view, StrMap};
use crate::text::{
    chars_of, concat, lemma_lex_order_antisym, slice_range, string_of, lemma_lex_order_trans, lex_order, owned, push_str, str_eq,
    trim_seq, trim_str,
};
use crate::ui::Ui;
use crate::updates::{file_name, path_file_name};
use crate::updates::VersionInfo;
use vstd::prelude::*;

verus! {

/// Labels of saved profiles: each label names one profile id.
pub type Labels = StrMap<String>;

/// The labels as texts: label to profile id.
pub open spec fn label_texts(m: Map<Seq<char>, String>) -> Map<Seq<char>, Seq<char>> {
    m.map_values(|v: String| v@)
}

/// Whether `l` is the first label (in `String` order) that names `id`.
pub open spec fn first_label_of(m: Map<Seq<char>, Seq<char>>, id: Seq<char>, l: Seq<char>) -> bool {
    &&& m.dom().contains(l)
    &&& m[l] == id
    &&& forall|k: Seq<char>| #[trigger] m.dom().contains(k) && m[k] == id ==> lex_order(l, k) <= 0
}

/// Whether some label names `id`.
pub open spec fn has_label(m: Map<Seq<char>, Seq<char>>, id: Seq<char>) -> bool {
    exists|k: Seq<char>| #[trigger] m.dom().contains(k) && m[k] == id
}

/// The message for an empty label.
pub open spec fn empty_label_error() -> Seq<char> {
    "Error: label cannot be empty"@
}

/// The message for a label that already names another profile.
pub open spec fn label_exists_error(label: Seq<char>, hint: Seq<char>) -> Seq<char> {
    "Error: label '"@ + label + "' already exists. "@ + hint
}

/// The message for a label that names no profile.
pub open spec fn label_missing_error(label: Seq<char>, hint: Seq<char>) -> Seq<char> {
    "Error: label '"@ + label + "' was not found. "@ + hint
}

/// The hint to list the saved profiles, without color.
pub open spec fn list_hint_text(ui: Ui) -> Seq<char> {
    crate::ui::hint_text(
        "Run "@ + crate::ui::cmd_text(crate::ui::command_line(ui.command_name@, "list"@))
            + " to see saved profiles."@,
        ui.plain,
    )
}

/// The labels after giving the profile `id` the label `label` (trimmed);
/// `None` where the label is empty or already names another profile.
pub open spec fn assigned_labels(m: Map<Seq<char>, Seq<char>>, label: Seq<char>, id: Seq<char>) -> Option<
    Map<Seq<char>, Seq<char>>,
> {
    let t = trim_seq(label);
    if t.len() == 0 || (m.dom().contains(t) && m[t] != id) {
        None
    } else {
        Some(m.insert(t, id))
    }
}

/// The profile id that `label` (trimmed) names, if any.
pub open spec fn resolved_label(m: Map<Seq<char>, Seq<char>>, label: Seq<char>) -> Option<Seq<char>> {
    let t = trim_seq(label);
    if t.len() > 0 && m.dom().contains(t) {
        Some(m[t])
    } else {
        None
    }
}

/// A label that was given to a profile resolves to that profile.
pub proof fn lemma_assign_then_resolve(m: Map<Seq<char>, Seq<char>>, label: Seq<char>, id: Seq<char>)
    requires
        assigned_labels(m, label, id) is Some,
    ensures
        resolved_label(assigned_labels(m, label, id).unwrap(), label) == Some(id),
{
}

/// Giving a profile the label it already has succeeds and changes nothing.
pub proof fn lemma_assign_again(m: Map<Seq<char>, Seq<char>>, label: Seq<char>, id: Seq<char>)
    requires
        assigned_labels(m, label, id) is Some,
    ensures
        assigned_labels(assigned_labels(m, label, id).unwrap(), label, id) == assigned_labels(
            m,
            label,
            id,
        ),
{
    let m2 = assigned_labels(m, label, id).unwrap();
    assert(m2.insert(trim_seq(label), id) =~= m2);
}

/// A label that another profile holds cannot be taken, and the labels stay
/// as they were.
pub proof fn lemma_assign_taken(
    m: Map<Seq<char>, Seq<char>>,
    label: Seq<char>,
    id: Seq<char>,
    other: Seq<char>,
)
    requires
        resolved_label(m, label) == Some(other),
        other != id,
    ensures
        assigned_labels(m, label, id) is None,
{
}

/// The labels left after dropping every label of the profile `id`.
pub open spec fn labels_without(m: Map<Seq<char>, Seq<char>>, id: Seq<char>) -> Map<Seq<char>, Seq<char>> {
    Map::new(|l: Seq<char>| m.dom().contains(l) && m[l] != id, |l: Seq<char>| m[l])
}

/// A label without surrounding whitespace; an error where nothing is left.
pub fn trim_label(label: &str) -> (res: Result<String, String>)
    ensures
        trim_seq(label@).len() == 0 ==> (res matches Err(e) && e@ == empty_label_error()),
        trim_seq(label@).len() > 0 ==> (res matches Ok(t) && t@ == trim_seq(label@)),
{
    let trimmed = trim_str(label);
    if trimmed.as_str().is_empty() {
        return Err(owned("Error: label cannot be empty"));
    }
    Ok(trimmed)
}

/// The label with its quotes and the message around it.
fn quoted_label_message(prefix: &str, label: &str, rest: &str, hint: &str) -> (res: String)
    ensures
        res@ == prefix@ + label@ + rest@ + hint@,
{
    let mut out = owned(prefix);
    push_str(&mut out, label);
    push_str(&mut out, rest);
    push_str(&mut out, hint);
    out
}

/// Gives a profile a label. A label that already names the same profile is
/// kept; one that names another profile is refused with a hint to list the
/// profiles. Only the trimmed label is stored.
pub fn assign_label(labels: &mut Labels, label: &str, id: &str, ui: &Ui, use_color: bool) -> (res:
    Result<(), String>)
    ensures
        ({
            let t = trim_seq(label@);
            let old_m = label_texts(old(labels)@);
            let new_m = label_texts(final(labels)@);
            if t.len() == 0 {
                res matches Err(e) && e@ == empty_label_error() && new_m == old_m
            } else if old_m.dom().contains(t) && old_m[t] != id@ {
                (res matches Err(e) && exists|h: Seq<char>| e@ == label_exists_error(t, h))
                    && new_m == old_m
            } else {
                res is Ok && new_m == old_m.insert(t, id@)
            }
        }),
        match assigned_labels(label_texts(old(labels)@), label@, id@) {
            Some(m2) => res is Ok && label_texts(final(labels)@) == m2,
            None => res is Err && label_texts(final(labels)@) == label_texts(old(labels)@),
        },
        (!use_color || ui.plain) && trim_seq(label@).len() > 0 ==> match res {
            Err(e) => e@ == label_exists_error(trim_seq(label@), list_hint_text(*ui)),
            Ok(_) => true,
        },
        (use_color && !ui.plain) && trim_seq(label@).len() > 0 ==> match res {
            Err(e) => exists|h: Seq<char>|
                #![trigger crate::ui::list_hint_colored(h, ui.command_name@)]
                crate::ui::list_hint_colored(h, ui.command_name@) && e@ == label_exists_error(
                    trim_seq(label@),
                    h,
                ),
            Ok(_) => true,
        },
{
    let trimmed = match trim_label(label) {
        Ok(t) => t,
        Err(e) => {
            proof {
                assert(label_texts(labels@) == label_texts(old(labels)@));
            }
            return Err(e);
        },
    };
    let ghost before = labels@;
    match labels.get(trimmed.as_str()) {
        Some(existing) => {
            if str_eq(existing.as_str(), id) {
                proof {
                    assert(label_texts(before).insert(trimmed@, id@) =~= label_texts(before));
                }
                return Ok(());
            }
            let hint = ui.format_list_hint(use_color);
            proof {
                assert(label_texts(before).dom().contains(trimmed@));
                assert(label_texts(before)[trimmed@] == existing@);
                assert(label_exists_error(trimmed@, hint@) == "Error: label '"@ + trimmed@
                    + "' already exists. "@ + hint@);
            }
            return Err(
                quoted_label_message("Error: label '", trimmed.as_str(), "' already exists. ", hint.as_str()),
            );
        },
        None => {},
    }
    let key = trimmed;
    labels.insert(key, owned(id));
    proof {
        assert(label_texts(labels@) =~= label_texts(before).insert(trim_seq(label@), id@));
    }
    Ok(())
}

/// The labels left after dropping those whose profile id is among `ids`
/// (where `listed`) or not among them (where not).
pub open spec fn kept_labels(m: Map<Seq<char>, Seq<char>>, ids: Seq<Seq<char>>, listed: bool) -> Map<
    Seq<char>,
    Seq<char>,
> {
    Map::new(|l: Seq<char>| m.dom().contains(l) && ids.contains(m[l]) != listed, |l: Seq<char>| m[l])
}

spec fn kept_among(
    m: Map<Seq<char>, Seq<char>>,
    ids: Seq<Seq<char>>,
    listed: bool,
    seen: Seq<Seq<char>>,
) -> Map<Seq<char>, Seq<char>> {
    Map::new(
        |l: Seq<char>| m.dom().contains(l) && !(seen.contains(l) && ids.contains(m[l]) == listed),
        |l: Seq<char>| m[l],
    )
}

fn drop_where_listed(labels: &mut Labels, ids: &[String], listed_drop: bool)
    ensures
        label_texts(final(labels)@) == kept_labels(
            label_texts(old(labels)@),
            texts_view(ids@),
            listed_drop,
        ),
{
    let ghost m0 = label_texts(labels@);
    let ghost iv = texts_view(ids@);
    let keys = labels.keys();
    let ghost ks = labels.key_seq();
    assert(ks.take(0) =~= Seq::<Seq<char>>::empty());
    assert(label_texts(labels@) =~= kept_among(m0, iv, listed_drop, ks.take(0)));
    let mut i: usize = 0;
    while i < keys.len()
        invariant
            i <= keys.len() == ks.len(),
            forall|j: int| 0 <= j < keys@.len() ==> #[trigger] keys@[j]@ == ks[j],
            texts_sorted(ks),
            forall|k: Seq<char>|
                #![trigger m0.dom().contains(k)]
                #![trigger ks.contains(k)]
                m0.dom().contains(k) <==> ks.contains(k),
            iv == texts_view(ids@),
            label_texts(labels@) == kept_among(m0, iv, listed_drop, ks.take(i as int)),
        decreases keys.len() - i,
    {
        let ghost k = ks[i as int];
        proof {
            assert(keys@[i as int]@ == k);
            assert(ks.contains(k));
            assert(!ks.take(i as int).contains(k)) by {
                if ks.take(i as int).contains(k) {
                    let j = choose|j: int| 0 <= j < i && ks.take(i as int)[j] == k;
                    assert(lex_order(ks[j], ks[i as int]) < 0);
                    lemma_lex_order_antisym(ks[j], ks[i as int]);
                }
            }
            assert(label_texts(labels@).dom().contains(k));
        }
        let ghost cur = label_texts(labels@);
        assert(cur[k] == m0[k]);
        let value = labels.get(keys[i].as_str());
        let drop = match value {
            Some(v) => listed_text(ids, v.as_str()) == listed_drop,
            None => false,
        };
        proof {
            assert(value is Some);
            assert(value.unwrap()@ == m0[k]);
            assert(drop == (iv.contains(m0[k]) == listed_drop));
        }
        let ghost prev = ks.take(i as int);
        let ghost next = ks.take(i + 1);
        proof {
            assert(next =~= prev.push(k));
            assert forall|l: Seq<char>| next.contains(l) <==> (prev.contains(l) || l == k) by {
                if next.contains(l) {
                    let j = choose|j: int| 0 <= j < next.len() && next[j] == l;
                    if j < i {
                        assert(prev[j] == l);
                    }
                }
                if prev.contains(l) {
                    let j = choose|j: int| 0 <= j < prev.len() && prev[j] == l;
                    assert(next[j] == l);
                }
                if l == k {
                    assert(next[i as int] == l);
                }
            }
        }
        if drop {
            labels.remove(keys[i].as_str());
            proof {
                assert(label_texts(labels@) =~= cur.remove(k));
            }
        }
        proof {
            assert(label_texts(labels@) =~= kept_among(m0, iv, listed_drop, next));
        }
        i = i + 1;
    }
    proof {
        assert(ks.take(ks.len() as int) =~= ks);
        assert(label_texts(labels@) =~= kept_labels(m0, iv, listed_drop));
    }
}

/// Drops every label of a profile.
pub fn remove_labels_for_id(labels: &mut Labels, id: &str)
    ensures
        label_texts(final(labels)@) == labels_without(label_texts(old(labels)@), id@),
{
    let ids = vec![owned(id)];
    drop_where_listed(labels, &ids, true);
    proof {
        assert(texts_view(ids@) =~= seq![id@]);
        assert forall|v: Seq<char>| texts_view(ids@).contains(v) <==> v == id@ by {
            if v == id@ {
                assert(texts_view(ids@)[0] == v);
            }
        }
        assert(label_texts(labels@) =~= labels_without(label_texts(old(labels)@), id@));
    }
}

/// After dropping the labels of a profile, no label names it, and the labels
/// of other profiles stay.
pub proof fn lemma_removed_has_no_label(m: Map<Seq<char>, Seq<char>>, id: Seq<char>)
    ensures
        !has_label(labels_without(m, id), id),
        forall|l: Seq<char>| #[trigger]
            m.dom().contains(l) && m[l] != id ==> labels_without(m, id).dom().contains(l)
                && labels_without(m, id)[l] == m[l],
{
}

/// Drops the labels of profiles that are no longer saved: only labels whose
/// profile id is among `saved_ids` stay.
pub fn prune_labels(labels: &mut Labels, saved_ids: &[String])
    ensures
        label_texts(final(labels)@) == Map::new(
            |l: Seq<char>| label_texts(old(labels)@).dom().contains(l) && texts_view(
                saved_ids@,
            ).contains(label_texts(old(labels)@)[l]),
            |l: Seq<char>| label_texts(old(labels)@)[l],
        ),
{
    drop_where_listed(labels, saved_ids, false);
    proof {
        assert(label_texts(labels@) =~= Map::new(
            |l: Seq<char>| label_texts(old(labels)@).dom().contains(l) && texts_view(
                saved_ids@,
            ).contains(label_texts(old(labels)@)[l]),
            |l: Seq<char>| label_texts(old(labels)@)[l],
        ));
    }
}

/// The first label (in `String` order) of a profile.
pub fn label_for_id(labels: &Labels, id: &str) -> (res: Option<String>)
    ensures
        match res {
            Some(l) => first_label_of(label_texts(labels@), id@, l@),
            None => !has_label(label_texts(labels@), id@),
        },
{
    let ghost m = label_texts(labels@);
    let keys = labels.keys();
    let ghost ks = labels.key_seq();
    let mut i: usize = 0;
    while i < keys.len()
        invariant
            i <= keys.len() == ks.len(),
            forall|j: int| 0 <= j < keys@.len() ==> #[trigger] keys@[j]@ == ks[j],
            texts_sorted(ks),
            forall|k: Seq<char>|
                #![trigger m.dom().contains(k)]
                #![trigger ks.contains(k)]
                m.dom().contains(k) <==> ks.contains(k),
            m == label_texts(labels@),
            forall|j: int| 0 <= j < i ==> m[#[trigger] ks[j]] != id@,
        decreases keys.len() - i,
    {
        let ghost k = ks[i as int];
        proof {
            assert(keys@[i as int]@ == k);
            assert(ks.contains(k));
        }
        match labels.get(keys[i].as_str()) {
            Some(v) => {
                if str_eq(v.as_str(), id) {
                    let res = keys[i].clone();
                    proof {
                        assert forall|x: Seq<char>| #[trigger] m.dom().contains(x) && m[x] == id@ implies lex_order(
                            k,
                            x,
                        ) <= 0 by {
                            let j = choose|j: int| 0 <= j < ks.len() && ks[j] == x;
                            if j < i {
                                assert(m[ks[j]] != id@);
                            } else if j > i {
                                assert(lex_order(ks[i as int], ks[j]) < 0);
                            } else {
                                lemma_lex_order_antisym(k, x);
                            }
                        }
                    }
                    return Some(res);
                }
            },
            None => {},
        }
        i = i + 1;
    }
    proof {
        assert forall|x: Seq<char>| #[trigger] m.dom().contains(x) implies m[x] != id@ by {
            let j = choose|j: int| 0 <= j < ks.len() && ks[j] == x;
            assert(m[ks[j]] != id@);
        }
    }
    None
}

/// The profile id that a label names, trimmed; an error for an empty label
/// or one that names no profile, with a hint to list the profiles.
pub fn resolve_label_id(labels: &Labels, label: &str, ui: &Ui, use_color: bool) -> (res: Result<
    String,
    String,
>)
    ensures
        ({
            let t = trim_seq(label@);
            let m = label_texts(labels@);
            if t.len() == 0 {
                res matches Err(e) && e@ == empty_label_error()
            } else if m.dom().contains(t) {
                res matches Ok(id) && id@ == m[t]
            } else {
                res matches Err(e) && exists|h: Seq<char>| e@ == label_missing_error(t, h)
            }
        }),
        match resolved_label(label_texts(labels@), label@) {
            Some(v) => res matches Ok(x) && x@ == v,
            None => res is Err,
        },
        (!use_color || ui.plain) && trim_seq(label@).len() > 0 ==> match res {
            Err(e) => e@ == label_missing_error(trim_seq(label@), list_hint_text(*ui)),
            Ok(_) => true,
        },
        (use_color && !ui.plain) && trim_seq(label@).len() > 0 ==> match res {
            Err(e) => exists|h: Seq<char>|
                #![trigger crate::ui::list_hint_colored(h, ui.command_name@)]
                crate::ui::list_hint_colored(h, ui.command_name@) && e@ == label_missing_error(
                    trim_seq(label@),
                    h,
                ),
            Ok(_) => true,
        },
{
    let trimmed = trim_label(label)?;
    match labels.get(trimmed.as_str()) {
        Some(id) => Ok(id.clone()),
        None => {
            let hint = ui.format_list_hint(use_color);
            proof {
                assert(label_missing_error(trimmed@, hint@) == "Error: label '"@ + trimmed@
                    + "' was not found. "@ + hint@);
            }
            Err(quoted_label_message("Error: label '", trimmed.as_str(), "' was not found. ", hint.as_str()))
        },
    }
}

/// The labels with labels and ids trimmed, leaving out pairs where either
/// is empty; where two labels trim to the same text, the later one (in
/// `String` order) wins.
pub open spec fn normalized_labels(m: Map<Seq<char>, Seq<char>>, ks: Seq<Seq<char>>) -> Map<
    Seq<char>,
    Seq<char>,
>
    decreases ks.len(),
{
    if ks.len() == 0 {
        Map::empty()
    } else {
        let prev = normalized_labels(m, ks.drop_last());
        let t = trim_seq(ks.last());
        let v = trim_seq(m[ks.last()]);
        if t.len() > 0 && v.len() > 0 {
            prev.insert(t, v)
        } else {
            prev
        }
    }
}

/// The labels with labels and ids trimmed and empty ones left out.
pub fn normalize_labels(labels: &Labels) -> (res: Labels)
    ensures
        label_texts(res@) == normalized_labels(label_texts(labels@), labels.key_seq()),
{
    let ghost m = label_texts(labels@);
    let keys = labels.keys();
    let ghost ks = labels.key_seq();
    let mut out: Labels = StrMap::new();
    let mut i: usize = 0;
    assert(ks.take(0) =~= Seq::<Seq<char>>::empty());
    assert(label_texts(out@) =~= Map::<Seq<char>, Seq<char>>::empty());
    while i < keys.len()
        invariant
            i <= keys.len() == ks.len(),
            forall|j: int| 0 <= j < keys@.len() ==> #[trigger] keys@[j]@ == ks[j],
            forall|k: Seq<char>|
                #![trigger m.dom().contains(k)]
                #![trigger ks.contains(k)]
                m.dom().contains(k) <==> ks.contains(k),
            m == label_texts(labels@),
            label_texts(out@) == normalized_labels(m, ks.take(i as int)),
        decreases keys.len() - i,
    {
        let ghost k = ks[i as int];
        proof {
            assert(keys@[i as int]@ == k);
            assert(ks.contains(k));
            assert(ks.take(i + 1).drop_last() =~= ks.take(i as int));
            assert(ks.take(i + 1).last() == k);
        }
        match labels.get(keys[i].as_str()) {
            Some(id) => {
                let t = trim_str(keys[i].as_str());
                let v = trim_str(id.as_str());
                if !t.as_str().is_empty() && !v.as_str().is_empty() {
                    let ghost before = out@;
                    out.insert(t, v);
                    proof {
                        assert(label_texts(out@) =~= label_texts(before).insert(
                            trim_seq(k),
                            trim_seq(m[k]),
                        ));
                    }
                }
            },
            None => {},
        }
        i = i + 1;
    }
    proof {
        assert(ks.take(ks.len() as int) =~= ks);
    }
    out
}

// ---------------------------------------------------------------------------
// The profiles index
// ---------------------------------------------------------------------------

/// The format version of the profiles index.
pub const PROFILES_INDEX_VERSION: u8 = 1;

/// What the profiles index records of one saved profile.
#[derive(Clone, Debug, PartialEq, Eq)]
pub struct ProfileIndexEntry {
    pub account_id: Option<String>,
    pub email: Option<String>,
    pub plan: Option<String>,
    pub label: Option<String>,
    pub added_at: u64,
    pub last_used: Option<u64>,
    pub is_api_key: bool,
    pub reserved: bool,
}

/// An entry that records nothing yet.
pub open spec fn blank_entry() -> ProfileIndexEntry {
    ProfileIndexEntry {
        account_id: None,
        email: None,
        plan: None,
        label: None,
        added_at: 0,
        last_used: None,
        is_api_key: false,
        reserved: false,
    }
}

impl ProfileIndexEntry {
    /// An entry that records nothing yet.
    pub fn blank() -> (res: Self)
        ensures
            res == blank_entry(),
    {
        ProfileIndexEntry {
            account_id: None,
            email: None,
            plan: None,
            label: None,
            added_at: 0,
            last_used: None,
            is_api_key: false,
            reserved: false,
        }
    }
}

impl Default for ProfileIndexEntry {
    fn default() -> (res: Self)
        ensures
            res == blank_entry(),
    {
        ProfileIndexEntry::blank()
    }
}

/// What an index entry records, as texts.
pub type EntryView = (
    Option<Seq<char>>,
    Option<Seq<char>>,
    Option<Seq<char>>,
    Option<Seq<char>>,
    u64,
    Option<u64>,
    bool,
    bool,
);

/// An index entry as texts: account id, email, plan, label, when it was
/// added, when it was last used, whether it is an API key, whether it is
/// reserved.
pub open spec fn entry_view(e: ProfileIndexEntry) -> EntryView {
    (
        opt_seq(e.account_id),
        opt_seq(e.email),
        opt_seq(e.plan),
        opt_seq(e.label),
        e.added_at,
        e.last_used,
        e.is_api_key,
        e.reserved,
    )
}

/// The entries of an index as texts.
pub open spec fn index_view(m: Map<Seq<char>, ProfileIndexEntry>) -> Map<Seq<char>, EntryView> {
    m.map_values(|e: ProfileIndexEntry| entry_view(e))
}

impl ProfileIndexEntry {
    /// A copy of the entry.
    pub fn clone_entry(&self) -> (res: Self)
        ensures
            entry_view(res) == entry_view(*self),
    {
        ProfileIndexEntry {
            account_id: self.account_id.clone(),
            email: self.email.clone(),
            plan: self.plan.clone(),
            label: self.label.clone(),
            added_at: self.added_at,
            last_used: self.last_used,
            is_api_key: self.is_api_key,
            reserved: self.reserved,
        }
    }
}

/// The profiles index: the saved profiles by id, the active one, and what
/// the update check remembers.
#[derive(Debug)]
pub struct ProfilesIndex {
    pub version: u8,
    pub active_profile_id: Option<String>,
    pub profiles: StrMap<ProfileIndexEntry>,
    pub update_cache: Option<VersionInfo>,
}

impl ProfilesIndex {
    /// An index with no profiles.
    pub fn empty() -> (res: Self)
        ensures
            res.version == PROFILES_INDEX_VERSION,
            res.active_profile_id is None,
            res.profiles@ == Map::<Seq<char>, ProfileIndexEntry>::empty(),
            res.update_cache is None,
    {
        ProfilesIndex {
            version: PROFILES_INDEX_VERSION,
            active_profile_id: None,
            profiles: StrMap::new(),
            update_cache: None,
        }
    }
}

impl Default for ProfilesIndex {
    fn default() -> (res: Self)
        ensures
            res.version == PROFILES_INDEX_VERSION,
            res.active_profile_id is None,
            res.profiles@ == Map::<Seq<char>, ProfileIndexEntry>::empty(),
            res.update_cache is None,
    {
        ProfilesIndex::empty()
    }
}

/// The labels that the index records, taken in id order: each label is
/// trimmed, and an empty one, or one that an earlier profile already has,
/// is left out.
pub open spec fn labels_of_entries(m: Map<Seq<char>, ProfileIndexEntry>, ks: Seq<Seq<char>>) -> Map<
    Seq<char>,
    Seq<char>,
>
    decreases ks.len(),
{
    if ks.len() == 0 {
        Map::empty()
    } else {
        let prev = labels_of_entries(m, ks.drop_last());
        let k = ks.last();
        match m[k].label {
            Some(l) => {
                let t = trim_seq(l@);
                if t.len() > 0 && !prev.dom().contains(t) {
                    prev.insert(t, k)
                } else {
                    prev
                }
            },
            None => prev,
        }
    }
}

/// The labels that the index records.
pub fn labels_from_index(index: &ProfilesIndex) -> (res: Labels)
    ensures
        label_texts(res@) == labels_of_entries(index.profiles@, index.profiles.key_seq()),
{
    let ghost m = index.profiles@;
    let keys = index.profiles.keys();
    let ghost ks = index.profiles.key_seq();
    let mut out: Labels = StrMap::new();
    let mut i: usize = 0;
    assert(ks.take(0) =~= Seq::<Seq<char>>::empty());
    assert(label_texts(out@) =~= Map::<Seq<char>, Seq<char>>::empty());
    while i < keys.len()
        invariant
            i <= keys.len() == ks.len(),
            forall|j: int| 0 <= j < keys@.len() ==> #[trigger] keys@[j]@ == ks[j],
            forall|k: Seq<char>|
                #![trigger m.dom().contains(k)]
                #![trigger ks.contains(k)]
                m.dom().contains(k) <==> ks.contains(k),
            m == index.profiles@,
            label_texts(out@) == labels_of_entries(m, ks.take(i as int)),
        decreases keys.len() - i,
    {
        let ghost k = ks[i as int];
        proof {
            assert(keys@[i as int]@ == k);
            assert(ks.contains(k));
            assert(ks.take(i + 1).drop_last() =~= ks.take(i as int));
            assert(ks.take(i + 1).last() == k);
        }
        match index.profiles.get(keys[i].as_str()) {
            Some(entry) => {
                match &entry.label {
                    Some(label) => {
                        let t = trim_str(label.as_str());
                        if !t.as_str().is_empty() && !out.contains_key(t.as_str()) {
                            let ghost before = out@;
                            out.insert(t, keys[i].clone());
                            proof {
                                assert(label_texts(out@) =~= label_texts(before).insert(
                                    trim_seq(label@),
                                    k,
                                ));
                            }
                        }
                    },
                    None => {},
                }
            },
            None => {},
        }
        i = i + 1;
    }
    proof {
        assert(ks.take(ks.len() as int) =~= ks);
    }
    out
}

/// The last-used time that the index records for an id, or 0.
pub open spec fn recorded_last_used(m: Map<Seq<char>, ProfileIndexEntry>, k: Seq<char>) -> u64 {
    if m.dom().contains(k) {
        match m[k].last_used {
            Some(t) => t,
            None => 0,
        }
    } else {
        0
    }
}

/// The last-used time of each of the given profile ids, as the index
/// records it (0 where it records none).
pub fn usage_map_from_index(index: &ProfilesIndex, ids: &[String]) -> (res: StrMap<u64>)
    ensures
        res@ == Map::new(
            |k: Seq<char>| texts_view(ids@).contains(k),
            |k: Seq<char>| recorded_last_used(index.profiles@, k),
        ),
{
    let ghost iv = texts_view(ids@);
    let mut out: StrMap<u64> = StrMap::new();
    let mut i: usize = 0;
    assert(out@ =~= Map::new(
        |k: Seq<char>| iv.take(0).contains(k),
        |k: Seq<char>| recorded_last_used(index.profiles@, k),
    ));
    while i < ids.len()
        invariant
            i <= ids.len(),
            iv == texts_view(ids@),
            out@ == Map::new(
                |k: Seq<char>| iv.take(i as int).contains(k),
                |k: Seq<char>| recorded_last_used(index.profiles@, k),
            ),
        decreases ids.len() - i,
    {
        let t: u64 = match index.profiles.get(ids[i].as_str()) {
            Some(entry) => match entry.last_used {
                Some(t) => t,
                None => 0,
            },
            None => 0,
        };
        let ghost before = out@;
        out.insert(ids[i].clone(), t);
        proof {
            let prev = iv.take(i as int);
            let next = iv.take(i + 1);
            assert(next =~= prev.push(ids@[i as int]@));
            assert forall|l: Seq<char>| next.contains(l) <==> (prev.contains(l) || l == ids@[i as int]@) by {
                if next.contains(l) {
                    let j = choose|j: int| 0 <= j < next.len() && next[j] == l;
                    if j < i {
                        assert(prev[j] == l);
                    }
                }
                if prev.contains(l) {
                    let j = choose|j: int| 0 <= j < prev.len() && prev[j] == l;
                    assert(next[j] == l);
                }
                if l == ids@[i as int]@ {
                    assert(next[i as int] == l);
                }
            }
            assert(out@ =~= Map::new(
                |k: Seq<char>| next.contains(k),
                |k: Seq<char>| recorded_last_used(index.profiles@, k),
            ));
        }
        i = i + 1;
    }
    proof {
        assert(iv.take(ids.len() as int) =~= iv);
    }
    out
}

/// Whether a text is among strings, for an optional text.
fn opt_listed(o: &Option<String>, ids: &[String]) -> (res: bool)
    ensures
        res == (match opt_seq(*o) {
            Some(a) => texts_view(ids@).contains(a),
            None => false,
        }),
{
    match o {
        Some(a) => listed_text(ids, a.as_str()),
        None => false,
    }
}

/// Drops the index entries of profiles that are no longer saved, and the
/// active profile where it is one of them.
pub fn prune_profiles_index(index: &mut ProfilesIndex, saved_ids: &[String])
    ensures
        final(index).profiles@ == old(index).profiles@.restrict(
            Set::new(|k: Seq<char>| texts_view(saved_ids@).contains(k)),
        ),
        final(index).active_profile_id == (match opt_seq(old(index).active_profile_id) {
            Some(a) => if texts_view(saved_ids@).contains(a) {
                old(index).active_profile_id
            } else {
                None
            },
            None => None,
        }),
        final(index).version == old(index).version,
        final(index).update_cache == old(index).update_cache,
{
    index.profiles.retain_listed(saved_ids, true);
    assert(Set::new(|k: Seq<char>| texts_view(saved_ids@).contains(k) == true) =~= Set::new(
        |k: Seq<char>| texts_view(saved_ids@).contains(k),
    ));
    let keep = opt_listed(&index.active_profile_id, saved_ids);
    if !keep {
        index.active_profile_id = None;
    }
}

/// Drops the index entries of profiles that were removed, and the active
/// profile where it is one of them.
pub fn forget_profiles(index: &mut ProfilesIndex, removed_ids: &[String])
    ensures
        final(index).profiles@ == old(index).profiles@.remove_keys(
            Set::new(|k: Seq<char>| texts_view(removed_ids@).contains(k)),
        ),
        final(index).active_profile_id == (match opt_seq(old(index).active_profile_id) {
            Some(a) => if texts_view(removed_ids@).contains(a) {
                None
            } else {
                old(index).active_profile_id
            },
            None => None,
        }),
        final(index).version == old(index).version,
        final(index).update_cache == old(index).update_cache,
{
    let ghost before = index.profiles@;
    index.profiles.retain_listed(removed_ids, false);
    assert(index.profiles@ =~= before.remove_keys(
        Set::new(|k: Seq<char>| texts_view(removed_ids@).contains(k)),
    ));
    let gone = opt_listed(&index.active_profile_id, removed_ids);
    if gone {
        index.active_profile_id = None;
    }
}

/// Whether an entry was brought up to date for profile `k`: its last-used
/// time from the usage map, its label the first that names `k`, the rest
/// as it was.
pub open spec fn synced_entry(
    e0: ProfileIndexEntry,
    e1: ProfileIndexEntry,
    k: Seq<char>,
    usage: Map<Seq<char>, u64>,
    lm: Map<Seq<char>, Seq<char>>,
) -> bool {
    &&& e1.last_used == (if usage.dom().contains(k) {
        Some(usage[k])
    } else {
        None
    })
    &&& match opt_seq(e1.label) {
        Some(l) => first_label_of(lm, k, l),
        None => !has_label(lm, k),
    }
    &&& e1.account_id == e0.account_id
    &&& e1.email == e0.email
    &&& e1.plan == e0.plan
    &&& e1.added_at == e0.added_at
    &&& e1.is_api_key == e0.is_api_key
    &&& e1.reserved == e0.reserved
}

/// Brings every index entry up to date with the usage map and the labels.
pub fn sync_profiles_index(index: &mut ProfilesIndex, usage_map: &StrMap<u64>, labels: &Labels)
    ensures
        final(index).profiles@.dom() == old(index).profiles@.dom(),
        forall|k: Seq<char>| #[trigger]
            old(index).profiles@.dom().contains(k) ==> synced_entry(
                old(index).profiles@[k],
                final(index).profiles@[k],
                k,
                usage_map@,
                label_texts(labels@),
            ),
        final(index).active_profile_id == old(index).active_profile_id,
        final(index).version == old(index).version,
        final(index).update_cache == old(index).update_cache,
{
    let ghost m0 = index.profiles@;
    let ghost lm = label_texts(labels@);
    let keys = index.profiles.keys();
    let ghost ks = index.profiles.key_seq();
    let mut i: usize = 0;
    while i < keys.len()
        invariant
            i <= keys.len() == ks.len(),
            forall|j: int| 0 <= j < keys@.len() ==> #[trigger] keys@[j]@ == ks[j],
            texts_sorted(ks),
            forall|k: Seq<char>|
                #![trigger m0.dom().contains(k)]
                #![trigger ks.contains(k)]
                m0.dom().contains(k) <==> ks.contains(k),
            lm == label_texts(labels@),
            index.profiles@.dom() == m0.dom(),
            forall|k: Seq<char>| #[trigger]
                m0.dom().contains(k) ==> if ks.take(i as int).contains(k) {
                    synced_entry(m0[k], index.profiles@[k], k, usage_map@, lm)
                } else {
                    index.profiles@[k] == m0[k]
                },
            index.active_profile_id == old(index).active_profile_id,
            index.version == old(index).version,
            index.update_cache == old(index).update_cache,
        decreases keys.len() - i,
    {
        let ghost k = ks[i as int];
        let ghost prev = ks.take(i as int);
        let ghost next = ks.take(i + 1);
        proof {
            assert(keys@[i as int]@ == k);
            assert(ks.contains(k));
            assert(next =~= prev.push(k));
            assert forall|l: Seq<char>| next.contains(l) <==> (prev.contains(l) || l == k) by {
                if next.contains(l) {
                    let j = choose|j: int| 0 <= j < next.len() && next[j] == l;
                    if j < i {
                        assert(prev[j] == l);
                    }
                }
                if prev.contains(l) {
                    let j = choose|j: int| 0 <= j < prev.len() && prev[j] == l;
                    assert(next[j] == l);
                }
                if l == k {
                    assert(next[i as int] == l);
                }
            }
            assert(!prev.contains(k)) by {
                if prev.contains(k) {
                    let j = choose|j: int| 0 <= j < prev.len() && prev[j] == k;
                    assert(lex_order(ks[j], ks[i as int]) < 0);
                    lemma_lex_order_antisym(ks[j], ks[i as int]);
                }
            }
        }
        let ghost before = index.profiles@;
        let taken = index.profiles.remove(keys[i].as_str());
        match taken {
            Some(entry) => {
                let mut entry = entry;
                entry.last_used = match usage_map.get(keys[i].as_str()) {
                    Some(t) => Some(*t),
                    None => None,
                };
                entry.label = label_for_id(labels, keys[i].as_str());
                index.profiles.insert(keys[i].clone(), entry);
                proof {
                    assert(index.profiles@ =~= before.insert(k, index.profiles@[k]));
                }
            },
            None => {
                proof {
                    assert(false);
                }
            },
        }
        i = i + 1;
    }
    proof {
        assert(ks.take(ks.len() as int) =~= ks);
    }
}

/// Whether `l` is the last label (in `String` order) that names `id`.
pub open spec fn last_label_of(m: Map<Seq<char>, Seq<char>>, id: Seq<char>, l: Seq<char>) -> bool {
    &&& m.dom().contains(l)
    &&& m[l] == id
    &&& forall|k: Seq<char>| #[trigger] m.dom().contains(k) && m[k] == id ==> lex_order(k, l) <= 0
}

/// The last label (in `String` order) of a profile.
pub fn last_label_for_id(labels: &Labels, id: &str) -> (res: Option<String>)
    ensures
        match res {
            Some(l) => last_label_of(label_texts(labels@), id@, l@),
            None => !has_label(label_texts(labels@), id@),
        },
{
    let ghost m = label_texts(labels@);
    let keys = labels.keys();
    let ghost ks = labels.key_seq();
    let mut found: Option<String> = None;
    let ghost mut at: int = 0;
    let mut i: usize = 0;
    while i < keys.len()
        invariant
            i <= keys.len() == ks.len(),
            forall|j: int| 0 <= j < keys@.len() ==> #[trigger] keys@[j]@ == ks[j],
            texts_sorted(ks),
            forall|k: Seq<char>|
                #![trigger m.dom().contains(k)]
                #![trigger ks.contains(k)]
                m.dom().contains(k) <==> ks.contains(k),
            m == label_texts(labels@),
            match found {
                Some(l) => 0 <= at < i && l@ == ks[at] && m[ks[at]] == id@ && forall|j: int|
                    at < j < i ==> m[#[trigger] ks[j]] != id@,
                None => forall|j: int| 0 <= j < i ==> m[#[trigger] ks[j]] != id@,
            },
        decreases keys.len() - i,
    {
        let ghost k = ks[i as int];
        proof {
            assert(keys@[i as int]@ == k);
            assert(ks.contains(k));
        }
        match labels.get(keys[i].as_str()) {
            Some(v) => {
                if str_eq(v.as_str(), id) {
                    found = Some(keys[i].clone());
                    proof {
                        at = i as int;
                    }
                }
            },
            None => {},
        }
        i = i + 1;
    }
    proof {
        match &found {
            Some(l) => {
                assert(ks.contains(ks[at]));
                assert forall|x: Seq<char>| #[trigger] m.dom().contains(x) && m[x] == id@ implies lex_order(
                    x,
                    l@,
                ) <= 0 by {
                    let j = choose|j: int| 0 <= j < ks.len() && ks[j] == x;
                    if j > at {
                        assert(m[ks[j]] != id@);
                    } else if j < at {
                        assert(lex_order(ks[j], ks[at]) < 0);
                    } else {
                        lemma_lex_order_antisym(x, l@);
                    }
                }
            },
            None => {
                assert forall|x: Seq<char>| #[trigger] m.dom().contains(x) implies m[x] != id@ by {
                    let j = choose|j: int| 0 <= j < ks.len() && ks[j] == x;
                    assert(m[ks[j]] != id@);
                }
            },
        }
    }
    found
}

/// Whether an entry was updated for a save or a switch at time `now`: what
/// the tokens show where they are given, the label where one is given, the
/// time it was added where it had none, and `now` as its last use.
pub open spec fn updated_entry(
    e0: ProfileIndexEntry,
    e1: ProfileIndexEntry,
    tokens: Option<Tokens>,
    label: Option<Seq<char>>,
    now: u64,
) -> bool {
    &&& e1.added_at == (if e0.added_at == 0 {
        now
    } else {
        e0.added_at
    })
    &&& match tokens {
        Some(t) => {
            &&& (opt_seq(e1.email), opt_seq(e1.plan)) == email_and_plan(t)
            &&& opt_seq(e1.account_id) == account_id_of(t)
            &&& e1.is_api_key == is_api_key_tokens(t)
        },
        None => {
            &&& e1.email == e0.email
            &&& e1.plan == e0.plan
            &&& e1.account_id == e0.account_id
            &&& e1.is_api_key == e0.is_api_key
        },
    }
    &&& match label {
        Some(l) => opt_seq(e1.label) == Some(l),
        None => e1.label == e0.label,
    }
    &&& e1.last_used == Some(now)
    &&& e1.reserved == e0.reserved
}

/// The entry of an id, or a blank one.
pub open spec fn entry_or_blank(m: Map<Seq<char>, ProfileIndexEntry>, id: Seq<char>) -> ProfileIndexEntry {
    if m.dom().contains(id) {
        m[id]
    } else {
        blank_entry()
    }
}

/// An entry with its reserved flag set as given.
pub open spec fn with_reserved(e: ProfileIndexEntry, reserved: bool) -> ProfileIndexEntry {
    ProfileIndexEntry { reserved: reserved, ..e }
}

/// The profiles after marking `id` reserved or not; unchanged where the flag
/// already is so.
pub open spec fn reserved_profiles(
    m: Map<Seq<char>, ProfileIndexEntry>,
    id: Seq<char>,
    reserved: bool,
) -> Map<Seq<char>, ProfileIndexEntry> {
    if entry_or_blank(m, id).reserved == reserved {
        m
    } else {
        m.insert(id, with_reserved(entry_or_blank(m, id), reserved))
    }
}

/// What reserving or unreserving a profile reports, for its display name.
pub open spec fn reserve_message(display: Seq<char>, reserved: bool, changed: bool) -> Seq<char> {
    let name = crate::service::without_reserved_marker(display);
    if changed {
        (if reserved {
            "Reserved"@
        } else {
            "Unreserved"@
        }) + " profile "@ + name
    } else {
        "Profile "@ + name + " is "@ + (if reserved {
            "already reserved"@
        } else {
            "already unreserved"@
        }) + "."@
    }
}

/// Marks a saved profile reserved (left out of automatic switching) or not.
/// Returns whether the index changed, and the message to report.
pub fn set_profile_reserved(index: &mut ProfilesIndex, id: &str, reserved: bool, display: &str) -> (res: (
    bool,
    String,
))
    ensures
        res.0 == (entry_or_blank(old(index).profiles@, id@).reserved != reserved),
        final(index).profiles@ == reserved_profiles(old(index).profiles@, id@, reserved),
        res.1@ == reserve_message(display@, reserved, res.0),
        final(index).active_profile_id == old(index).active_profile_id,
        final(index).version == old(index).version,
        final(index).update_cache == old(index).update_cache,
{
    let name = crate::service::display_without_reserved_marker(display);
    let current = match index.profiles.get(id) {
        Some(e) => e.reserved,
        None => false,
    };
    if current == reserved {
        let state = if reserved {
            "already reserved"
        } else {
            "already unreserved"
        };
        let mut msg = concat("Profile ", name.as_str());
        push_str(&mut msg, " is ");
        push_str(&mut msg, state);
        push_str(&mut msg, ".");
        proof {
            reveal_strlit("already reserved");
            reveal_strlit("already unreserved");
        }
        return (false, msg);
    }
    let ghost before = index.profiles@;
    let mut entry = match index.profiles.remove(id) {
        Some(e) => e,
        None => ProfileIndexEntry::blank(),
    };
    entry.reserved = reserved;
    index.profiles.insert(owned(id), entry);
    proof {
        assert(index.profiles@ =~= before.insert(id@, with_reserved(entry_or_blank(before, id@), reserved)));
    }
    let verb = if reserved {
        "Reserved"
    } else {
        "Unreserved"
    };
    let mut msg = owned(verb);
    push_str(&mut msg, " profile ");
    push_str(&mut msg, name.as_str());
    (true, msg)
}

/// Reserving a profile and then unreserving it gives back the profiles as
/// they were, where the profile had an entry that was not reserved; and
/// either way the flag ends as last asked.
pub proof fn lemma_reserve_unreserve(m: Map<Seq<char>, ProfileIndexEntry>, id: Seq<char>)
    ensures
        entry_or_blank(reserved_profiles(m, id, true), id).reserved,
        !entry_or_blank(reserved_profiles(reserved_profiles(m, id, true), id, false), id).reserved,
        m.dom().contains(id) && !m[id].reserved ==> reserved_profiles(
            reserved_profiles(m, id, true),
            id,
            false,
        ) == m,
        reserved_profiles(reserved_profiles(m, id, true), id, true) == reserved_profiles(m, id, true),
{
    if m.dom().contains(id) && !m[id].reserved {
        let m1 = reserved_profiles(m, id, true);
        assert(with_reserved(with_reserved(m[id], true), false) == m[id]);
        assert(m1.insert(id, with_reserved(m1[id], false)) =~= m);
    }
}

/// Records a save or a switch of profile `id` at time `now`, and makes it
/// the active profile where asked.
pub fn update_profiles_index_entry(
    index: &mut ProfilesIndex,
    id: &str,
    tokens: Option<&Tokens>,
    label: Option<String>,
    now: u64,
    set_active: bool,
)
    ensures
        final(index).profiles@ == old(index).profiles@.insert(id@, final(index).profiles@[id@]),
        updated_entry(
            entry_or_blank(old(index).profiles@, id@),
            final(index).profiles@[id@],
            match tokens {
                Some(t) => Some(*t),
                None => None,
            },
            opt_seq(label),
            now,
        ),
        set_active ==> opt_seq(final(index).active_profile_id) == Some(id@),
        !set_active ==> final(index).active_profile_id == old(index).active_profile_id,
        final(index).version == old(index).version,
        final(index).update_cache == old(index).update_cache,
{
    let ghost before = index.profiles@;
    let mut entry = match index.profiles.remove(id) {
        Some(e) => e,
        None => ProfileIndexEntry::blank(),
    };
    if entry.added_at == 0 {
        entry.added_at = now;
    }
    match tokens {
        Some(t) => {
            let (email, plan) = extract_email_and_plan(t);
            entry.email = email;
            entry.plan = plan;
            entry.account_id = match token_account_id(t) {
                Some(a) => Some(owned(a)),
                None => None,
            };
            entry.is_api_key = is_api_key_profile(t);
        },
        None => {},
    }
    match label {
        Some(l) => {
            entry.label = Some(l);
        },
        None => {},
    }
    entry.last_used = Some(now);
    index.profiles.insert(owned(id), entry);
    proof {
        assert(index.profiles@ =~= before.insert(id@, index.profiles@[id@]));
    }
    if set_active {
        index.active_profile_id = Some(owned(id));
    }
}

/// Whether the index carries the labels: every profile it had, and every
/// profile that a label names, has as its label the last label (in `String`
/// order) that names it, or none; the rest of each entry is as it was (or
/// blank for a profile that it lacked).
pub open spec fn labels_applied(
    m0: Map<Seq<char>, ProfileIndexEntry>,
    m1: Map<Seq<char>, ProfileIndexEntry>,
    lm: Map<Seq<char>, Seq<char>>,
) -> bool {
    &&& forall|k: Seq<char>| #[trigger]
        m1.dom().contains(k) <==> (m0.dom().contains(k) || has_label(lm, k))
    &&& forall|k: Seq<char>| #[trigger]
        m1.dom().contains(k) ==> {
            let e0 = entry_or_blank(m0, k);
            let e1 = m1[k];
            &&& match opt_seq(e1.label) {
                Some(l) => last_label_of(lm, k, l),
                None => !has_label(lm, k),
            }
            &&& e1.account_id == e0.account_id
            &&& e1.email == e0.email
            &&& e1.plan == e0.plan
            &&& e1.added_at == e0.added_at
            &&& e1.last_used == e0.last_used
            &&& e1.is_api_key == e0.is_api_key
            &&& e1.reserved == e0.reserved
        }
}

/// Labels whose labels and ids carry no surrounding whitespace and are not
/// empty, where no profile has two labels.
pub open spec fn clean_labels(lm: Map<Seq<char>, Seq<char>>) -> bool {
    &&& forall|l: Seq<char>| #[trigger]
        lm.dom().contains(l) ==> l.len() > 0 && trim_seq(l) == l && lm[l].len() > 0 && trim_seq(
            lm[l],
        ) == lm[l]
    &&& forall|a: Seq<char>, b: Seq<char>|
        lm.dom().contains(a) && lm.dom().contains(b) && #[trigger] lm[a] == #[trigger] lm[b] ==> a
            == b
}

proof fn lemma_normalized_clean(lm: Map<Seq<char>, Seq<char>>, ls: Seq<Seq<char>>)
    requires
        clean_labels(lm),
        forall|i: int| 0 <= i < ls.len() ==> lm.dom().contains(#[trigger] ls[i]),
    ensures
        normalized_labels(lm, ls) == Map::new(|l: Seq<char>| ls.contains(l), |l: Seq<char>| lm[l]),
    decreases ls.len(),
{
    let target = Map::new(|l: Seq<char>| ls.contains(l), |l: Seq<char>| lm[l]);
    if ls.len() == 0 {
        assert(normalized_labels(lm, ls) =~= target);
    } else {
        let p = ls.drop_last();
        let k = ls.last();
        assert forall|i: int| 0 <= i < p.len() implies lm.dom().contains(#[trigger] p[i]) by {
            assert(p[i] == ls[i]);
        }
        lemma_normalized_clean(lm, p);
        assert(lm.dom().contains(ls[ls.len() - 1]));
        assert forall|l: Seq<char>| ls.contains(l) <==> (p.contains(l) || l == k) by {
            if ls.contains(l) {
                let j = choose|j: int| 0 <= j < ls.len() && ls[j] == l;
                if j < p.len() {
                    assert(p[j] == l);
                }
            }
            if p.contains(l) {
                let j = choose|j: int| 0 <= j < p.len() && p[j] == l;
                assert(ls[j] == l);
            }
            if l == k {
                assert(ls[ls.len() - 1] == l);
            }
        }
        assert(normalized_labels(lm, ls) =~= target);
    }
}

proof fn lemma_labels_of_applied(
    m1: Map<Seq<char>, ProfileIndexEntry>,
    lm: Map<Seq<char>, Seq<char>>,
    ks: Seq<Seq<char>>,
)
    requires
        clean_labels(lm),
        ks.no_duplicates(),
        forall|k: Seq<char>| #[trigger]
            m1.dom().contains(k) ==> match opt_seq(m1[k].label) {
                Some(l) => last_label_of(lm, k, l),
                None => !has_label(lm, k),
            },
        forall|i: int| 0 <= i < ks.len() ==> m1.dom().contains(#[trigger] ks[i]),
    ensures
        labels_of_entries(m1, ks) == Map::new(
            |t: Seq<char>| lm.dom().contains(t) && ks.contains(lm[t]),
            |t: Seq<char>| lm[t],
        ),
    decreases ks.len(),
{
    let target = Map::new(
        |t: Seq<char>| lm.dom().contains(t) && ks.contains(lm[t]),
        |t: Seq<char>| lm[t],
    );
    if ks.len() == 0 {
        assert(labels_of_entries(m1, ks) =~= target);
    } else {
        let p = ks.drop_last();
        let k = ks.last();
        assert forall|i: int| 0 <= i < p.len() implies m1.dom().contains(#[trigger] p[i]) by {
            assert(p[i] == ks[i]);
        }
        assert(p.no_duplicates()) by {
            assert forall|i: int, j: int| 0 <= i < p.len() && 0 <= j < p.len() && i != j implies p[i]
                != p[j] by {
                assert(p[i] == ks[i] && p[j] == ks[j]);
            }
        }
        lemma_labels_of_applied(m1, lm, p);
        let prev = labels_of_entries(m1, p);
        assert(m1.dom().contains(ks[ks.len() - 1]));
        assert(!p.contains(k)) by {
            if p.contains(k) {
                let j = choose|j: int| 0 <= j < p.len() && p[j] == k;
                assert(ks[j] == ks[ks.len() - 1]);
            }
        }
        assert forall|v: Seq<char>| ks.contains(v) <==> (p.contains(v) || v == k) by {
            if ks.contains(v) {
                let j = choose|j: int| 0 <= j < ks.len() && ks[j] == v;
                if j < p.len() {
                    assert(p[j] == v);
                }
            }
            if p.contains(v) {
                let j = choose|j: int| 0 <= j < p.len() && p[j] == v;
                assert(ks[j] == v);
            }
            if v == k {
                assert(ks[ks.len() - 1] == v);
            }
        }
        match m1[k].label {
            Some(label) => {
                let l = label@;
                assert(opt_seq(m1[k].label) == Some(l));
                assert(last_label_of(lm, k, l));
                assert(trim_seq(l) == l);
                assert(!prev.dom().contains(l));
                assert forall|t: Seq<char>| lm.dom().contains(t) && lm[t] == k implies t == l by {
                    assert(lm[t] == lm[l]);
                }
                assert(labels_of_entries(m1, ks) == prev.insert(l, k));
                assert(labels_of_entries(m1, ks) =~= target);
            },
            None => {
                assert(!has_label(lm, k));
                assert(labels_of_entries(m1, ks) == prev);
                assert(labels_of_entries(m1, ks) =~= target);
            },
        }
    }
}

/// Labels written into the index read back unchanged: where every label and
/// id is trimmed and not empty, and no profile has two labels, the labels of
/// an index that carries them are those labels. (`ls` lists the labels and
/// `ks` the index's ids, each once.)
pub proof fn lemma_labels_round_trip(
    m0: Map<Seq<char>, ProfileIndexEntry>,
    m1: Map<Seq<char>, ProfileIndexEntry>,
    lm: Map<Seq<char>, Seq<char>>,
    ls: Seq<Seq<char>>,
    ks: Seq<Seq<char>>,
)
    requires
        clean_labels(lm),
        forall|l: Seq<char>| lm.dom().contains(l) <==> ls.contains(l),
        labels_applied(m0, m1, normalized_labels(lm, ls)),
        ks.no_duplicates(),
        forall|k: Seq<char>| m1.dom().contains(k) <==> ks.contains(k),
    ensures
        labels_of_entries(m1, ks) == lm,
{
    assert forall|i: int| 0 <= i < ls.len() implies lm.dom().contains(#[trigger] ls[i]) by {
        assert(ls.contains(ls[i]));
    }
    lemma_normalized_clean(lm, ls);
    assert(normalized_labels(lm, ls) =~= lm);
    assert forall|i: int| 0 <= i < ks.len() implies m1.dom().contains(#[trigger] ks[i]) by {
        assert(ks.contains(ks[i]));
    }
    lemma_labels_of_applied(m1, lm, ks);
    assert forall|t: Seq<char>| lm.dom().contains(t) implies ks.contains(lm[t]) by {
        assert(has_label(lm, lm[t]));
        assert(m1.dom().contains(lm[t]));
    }
    assert(labels_of_entries(m1, ks) =~= lm);
}

/// Writes labels into the index: the labels are normalized first, then each
/// profile gets the last label that names it, and a labeled profile that the
/// index lacks gets an entry.
pub fn apply_labels(index: &mut ProfilesIndex, labels: &Labels)
    ensures
        labels_applied(
            old(index).profiles@,
            final(index).profiles@,
            normalized_labels(label_texts(labels@), labels.key_seq()),
        ),
        final(index).active_profile_id == old(index).active_profile_id,
        final(index).version == old(index).version,
        final(index).update_cache == old(index).update_cache,
{
    let normalized = normalize_labels(labels);
    let ghost lm = label_texts(normalized@);
    let ghost m0 = index.profiles@;
    let keys = index.profiles.keys();
    let ghost ks = index.profiles.key_seq();
    let mut i: usize = 0;
    while i < keys.len()
        invariant
            i <= keys.len() == ks.len(),
            forall|j: int| 0 <= j < keys@.len() ==> #[trigger] keys@[j]@ == ks[j],
            texts_sorted(ks),
            forall|k: Seq<char>|
                #![trigger m0.dom().contains(k)]
                #![trigger ks.contains(k)]
                m0.dom().contains(k) <==> ks.contains(k),
            lm == label_texts(normalized@),
            index.profiles@.dom() == m0.dom(),
            forall|k: Seq<char>| #[trigger]
                m0.dom().contains(k) ==> {
                    let e1 = index.profiles@[k];
                    let e0 = m0[k];
                    &&& ks.take(i as int).contains(k) ==> match opt_seq(e1.label) {
                        Some(l) => last_label_of(lm, k, l),
                        None => !has_label(lm, k),
                    }
                    &&& !ks.take(i as int).contains(k) ==> e1.label == e0.label
                    &&& e1.account_id == e0.account_id
                    &&& e1.email == e0.email
                    &&& e1.plan == e0.plan
                    &&& e1.added_at == e0.added_at
                    &&& e1.last_used == e0.last_used
                    &&& e1.is_api_key == e0.is_api_key
                    &&& e1.reserved == e0.reserved
                },
            index.active_profile_id == old(index).active_profile_id,
            index.version == old(index).version,
            index.update_cache == old(index).update_cache,
        decreases keys.len() - i,
    {
        let ghost k = ks[i as int];
        let ghost prev = ks.take(i as int);
        let ghost next = ks.take(i + 1);
        proof {
            assert(keys@[i as int]@ == k);
            assert(ks.contains(k));
            assert(next =~= prev.push(k));
            assert forall|l: Seq<char>| next.contains(l) <==> (prev.contains(l) || l == k) by {
                if next.contains(l) {
                    let j = choose|j: int| 0 <= j < next.len() && next[j] == l;
                    if j < i {
                        assert(prev[j] == l);
                    }
                }
                if prev.contains(l) {
                    let j = choose|j: int| 0 <= j < prev.len() && prev[j] == l;
                    assert(next[j] == l);
                }
                if l == k {
                    assert(next[i as int] == l);
                }
            }
        }
        let ghost before = index.profiles@;
        let taken = index.profiles.remove(keys[i].as_str());
        match taken {
            Some(entry) => {
                let mut entry = entry;
                entry.label = last_label_for_id(&normalized, keys[i].as_str());
                index.profiles.insert(keys[i].clone(), entry);
                proof {
                    assert(index.profiles@ =~= before.insert(k, index.profiles@[k]));
                }
            },
            None => {
                proof {
                    assert(false);
                }
            },
        }
        i = i + 1;
    }
    proof {
        assert(ks.take(ks.len() as int) =~= ks);
    }
    let ghost m_mid = index.profiles@;
    let label_keys = normalized.keys();
    let ghost lks = normalized.key_seq();
    let mut j: usize = 0;
    while j < label_keys.len()
        invariant
            j <= label_keys.len() == lks.len(),
            forall|x: int| 0 <= x < label_keys@.len() ==> #[trigger] label_keys@[x]@ == lks[x],
            forall|l: Seq<char>|
                #![trigger lm.dom().contains(l)]
                #![trigger lks.contains(l)]
                lm.dom().contains(l) <==> lks.contains(l),
            lm == label_texts(normalized@),
            m_mid.dom() == m0.dom(),
            forall|k: Seq<char>| #[trigger]
                index.profiles@.dom().contains(k) <==> (m0.dom().contains(k) || exists|x: int|
                    0 <= x < j && #[trigger] lm[lks[x]] == k),
            forall|k: Seq<char>| #[trigger]
                m0.dom().contains(k) ==> index.profiles@[k] == m_mid[k],
            forall|k: Seq<char>| #[trigger]
                index.profiles@.dom().contains(k) && !m0.dom().contains(k) ==> {
                    let e1 = index.profiles@[k];
                    &&& match opt_seq(e1.label) {
                        Some(l) => last_label_of(lm, k, l),
                        None => !has_label(lm, k),
                    }
                    &&& e1.account_id == blank_entry().account_id
                    &&& e1.email == blank_entry().email
                    &&& e1.plan == blank_entry().plan
                    &&& e1.added_at == 0
                    &&& e1.last_used == blank_entry().last_used
                    &&& !e1.is_api_key
                    &&& !e1.reserved
                },
            index.active_profile_id == old(index).active_profile_id,
            index.version == old(index).version,
            index.update_cache == old(index).update_cache,
        decreases label_keys.len() - j,
    {
        let ghost l = lks[j as int];
        proof {
            assert(label_keys@[j as int]@ == l);
            assert(lks.contains(l));
        }
        let ghost before = index.profiles@;
        match normalized.get(label_keys[j].as_str()) {
            Some(id) => {
                if !index.profiles.contains_key(id.as_str()) {
                    let mut entry = ProfileIndexEntry::blank();
                    entry.label = last_label_for_id(&normalized, id.as_str());
                    index.profiles.insert(id.clone(), entry);
                    proof {
                        assert(index.profiles@ =~= before.insert(id@, index.profiles@[id@]));
                    }
                }
                proof {
                    assert(lm[lks[j as int]] == id@);
                    assert forall|k: Seq<char>| #[trigger]
                        index.profiles@.dom().contains(k) <==> (m0.dom().contains(k) || exists|x: int|
                            0 <= x < j + 1 && #[trigger] lm[lks[x]] == k) by {
                        if exists|x: int| 0 <= x < j + 1 && #[trigger] lm[lks[x]] == k {
                            let x = choose|x: int| 0 <= x < j + 1 && #[trigger] lm[lks[x]] == k;
                            if x < j {
                                assert(exists|x: int| 0 <= x < j && #[trigger] lm[lks[x]] == k);
                            }
                        }
                        if exists|x: int| 0 <= x < j && #[trigger] lm[lks[x]] == k {
                            let x = choose|x: int| 0 <= x < j && #[trigger] lm[lks[x]] == k;
                            assert(0 <= x < j + 1 && lm[lks[x]] == k);
                        }
                    }
                }
            },
            None => {
                proof {
                    assert(false);
                }
            },
        }
        j = j + 1;
    }
    proof {
        assert forall|k: Seq<char>| #[trigger]
            index.profiles@.dom().contains(k) <==> (m0.dom().contains(k) || has_label(lm, k)) by {
            if has_label(lm, k) {
                let l = choose|l: Seq<char>| #[trigger] lm.dom().contains(l) && lm[l] == k;
                let x = choose|x: int| 0 <= x < lks.len() && lks[x] == l;
                assert(lm[lks[x]] == k);
            }
            if exists|x: int| 0 <= x < lks.len() && #[trigger] lm[lks[x]] == k {
                let x = choose|x: int| 0 <= x < lks.len() && #[trigger] lm[lks[x]] == k;
                assert(lks.contains(lks[x]));
                assert(lm.dom().contains(lks[x]));
            }
        }
    }
}

// ---------------------------------------------------------------------------
// Profile files
// ---------------------------------------------------------------------------

/// The position of the last `.` in a file name, or -1.
pub open spec fn last_dot(name: Seq<char>) -> int
    decreases name.len(),
{
    if name.len() == 0 {
        -1
    } else if name.last() == '.' {
        name.len() - 1
    } else {
        last_dot(name.drop_last())
    }
}

/// `Path::file_stem` of a file name: the part before the last `.`, or the
/// whole name where the only `.` starts it or there is none.
pub open spec fn stem_of(name: Seq<char>) -> Seq<char> {
    if last_dot(name) <= 0 {
        name
    } else {
        name.take(last_dot(name))
    }
}

/// `Path::extension` of a file name: the part after the last `.`, unless
/// that `.` starts the name or there is none.
pub open spec fn extension_of(name: Seq<char>) -> Option<Seq<char>> {
    if last_dot(name) <= 0 {
        None
    } else {
        Some(name.skip(last_dot(name) + 1))
    }
}

/// The profile id that a profile file's path gives: its file stem, where it
/// has a non-empty one.
pub open spec fn profile_id_of(path: Seq<char>) -> Option<Seq<char>> {
    match path_file_name(path) {
        Some(n) => if stem_of(n).len() > 0 {
            Some(stem_of(n))
        } else {
            None
        },
        None => None,
    }
}

/// Whether a path names a saved profile: a `.json` file other than the
/// profiles index `profiles.json` and the update cache `update.json`.
pub open spec fn is_profile_path(path: Seq<char>) -> bool {
    match path_file_name(path) {
        Some(n) => extension_of(n) == Some("json"@) && n != "profiles.json"@ && n
            != "update.json"@,
        None => false,
    }
}

/// A path joined with one more part, as `PathBuf::push` does on Unix.
pub open spec fn path_join(dir: Seq<char>, part: Seq<char>) -> Seq<char> {
    if part.len() > 0 && part[0] == '/' {
        part
    } else if dir.len() == 0 || dir.last() == '/' {
        dir + part
    } else {
        dir + seq!['/'] + part
    }
}

proof fn lemma_last_dot_bounds(name: Seq<char>)
    ensures
        -1 <= last_dot(name) < name.len(),
        last_dot(name) >= 0 ==> name[last_dot(name)] == '.',
    decreases name.len(),
{
    if name.len() > 0 && name.last() != '.' {
        lemma_last_dot_bounds(name.drop_last());
    }
}

pub(crate) fn last_dot_exec(name: &[char]) -> (res: usize)
    ensures
        res as int == last_dot(name@) + 1,
        res <= name@.len(),
{
    proof {
        lemma_last_dot_bounds(name@);
        assert(name@.take(name.len() as int) =~= name@);
    }
    let mut i: usize = name.len();
    while i > 0 && name[i - 1] != '.'
        invariant
            i <= name.len(),
            last_dot(name@) == last_dot(name@.take(i as int)),
        decreases i,
    {
        assert(name@.take(i as int).drop_last() =~= name@.take(i - 1));
        i = i - 1;
    }
    proof {
        assert(name@.take(name.len() as int) =~= name@);
        if i > 0 {
            assert(name@.take(i as int).last() == '.');
        } else {
            assert(name@.take(0) =~= Seq::<char>::empty());
        }
    }
    i
}

/// The profile id of a profile file: the stem of its file name.
pub fn profile_id_from_path(path: &str) -> (res: Option<String>)
    ensures
        opt_seq(res) == profile_id_of(path@),
{
    let name = match file_name(path) {
        Some(n) => n,
        None => return None,
    };
    let v = chars_of(name.as_str());
    let d = last_dot_exec(&v);
    let stem = if d <= 1 {
        v
    } else {
        slice_range(&v, 0, d - 1)
    };
    proof {
        if d > 1 {
            assert(stem@ =~= name@.take(last_dot(name@)));
        }
    }
    if stem.len() == 0 {
        return None;
    }
    Some(string_of(&stem))
}

/// Whether a path names a saved profile.
pub fn is_profile_file(path: &str) -> (res: bool)
    ensures
        res == is_profile_path(path@),
{
    let name = match file_name(path) {
        Some(n) => n,
        None => return false,
    };
    let v = chars_of(name.as_str());
    let d = last_dot_exec(&v);
    if d <= 1 {
        return false;
    }
    let ext = slice_range(&v, d, v.len());
    assert(ext@ =~= name@.skip(last_dot(name@) + 1));
    let json = chars_of("json");
    if !crate::text::chars_eq(&ext, &json) {
        return false;
    }
    !str_eq(name.as_str(), "profiles.json") && !str_eq(name.as_str(), "update.json")
}

/// The path of the file of a saved profile: `{id}.json` in the profiles
/// directory.
pub fn profile_path_for_id(profiles_dir: &str, id: &str) -> (res: String)
    ensures
        res@ == path_join(profiles_dir@, id@ + ".json"@),
{
    let part = concat(id, ".json");
    let pv = chars_of(part.as_str());
    if pv.len() > 0 && pv[0] == '/' {
        return part;
    }
    let dv = chars_of(profiles_dir);
    if dv.len() == 0 || dv[dv.len() - 1] == '/' {
        return concat(profiles_dir, part.as_str());
    }
    let mut out = owned(profiles_dir);
    out.push('/');
    push_str(&mut out, part.as_str());
    assert(out@ =~= profiles_dir@ + seq!['/'] + part@);
    out
}

/// The paths among a directory listing that name saved profiles, in order.
pub fn profile_files(paths: &[String]) -> (res: Vec<String>)
    ensures
        texts_view(res@) == texts_view(paths@).filter(|p: Seq<char>| is_profile_path(p)),
{
    let ghost pv = texts_view(paths@);
    let mut out: Vec<String> = Vec::new();
    let mut i: usize = 0;
    while i < paths.len()
        invariant
            i <= paths.len(),
            pv == texts_view(paths@),
            texts_view(out@) == pv.take(i as int).filter(|p: Seq<char>| is_profile_path(p)),
        decreases paths.len() - i,
    {
        proof {
            assert(pv.take(i + 1).drop_last() =~= pv.take(i as int));
            reveal(Seq::filter);
        }
        if is_profile_file(paths[i].as_str()) {
            let ghost before = texts_view(out@);
            out.push(paths[i].clone());
            assert(texts_view(out@) =~= before.push(paths@[i as int]@));
        }
        i = i + 1;
    }
    assert(pv.take(paths.len() as int) =~= pv);
    out
}

/// The ids of the saved profiles among a directory listing, each once, in
/// `String` order.
pub fn collect_profile_ids(paths: &[String]) -> (res: Vec<String>)
    ensures
        texts_sorted(texts_view(res@)),
        forall|x: Seq<char>|
            texts_view(res@).contains(x) <==> exists|i: int|
                0 <= i < paths@.len() && is_profile_path(#[trigger] paths@[i]@) && profile_id_of(
                    paths@[i]@,
                ) == Some(x),
{
    let mut ids: StrMap<bool> = StrMap::new();
    let mut i: usize = 0;
    while i < paths.len()
        invariant
            i <= paths.len(),
            forall|x: Seq<char>|
                #[trigger] ids@.dom().contains(x) <==> exists|j: int|
                    0 <= j < i && is_profile_path(#[trigger] paths@[j]@) && profile_id_of(
                        paths@[j]@,
                    ) == Some(x),
        decreases paths.len() - i,
    {
        let ghost before = ids@;
        if is_profile_file(paths[i].as_str()) {
            match profile_id_from_path(paths[i].as_str()) {
                Some(id) => {
                    ids.insert(id, true);
                },
                None => {},
            }
        }
        proof {
            assert forall|x: Seq<char>|
                #[trigger] ids@.dom().contains(x) <==> exists|j: int|
                    0 <= j < i + 1 && is_profile_path(#[trigger] paths@[j]@) && profile_id_of(
                        paths@[j]@,
                    ) == Some(x) by {
                if exists|j: int|
                    0 <= j < i + 1 && is_profile_path(#[trigger] paths@[j]@) && profile_id_of(
                        paths@[j]@,
                    ) == Some(x) {
                    let j = choose|j: int|
                        0 <= j < i + 1 && is_profile_path(#[trigger] paths@[j]@) && profile_id_of(
                            paths@[j]@,
                        ) == Some(x);
                    if j < i {
                        assert(before.dom().contains(x));
                    }
                }
                if before.dom().contains(x) {
                    let j = choose|j: int|
                        0 <= j < i && is_profile_path(#[trigger] paths@[j]@) && profile_id_of(
                            paths@[j]@,
                        ) == Some(x);
                    assert(0 <= j < i + 1);
                }
            }
        }
        i = i + 1;
    }
    let keys = ids.keys();
    proof {
        let ks = ids.key_seq();
        assert(texts_view(keys@) =~= ks);
    }
    keys
}


// ---------------------------------------------------------------------------
// Loading the tokens of the saved profiles
// ---------------------------------------------------------------------------

/// What reading one saved profile file gave: its tokens or why they could
/// not be read, and, for a file that could not be read, what removing it
/// gave.
#[derive(Debug)]
pub struct ProfileRead {
    pub path: String,
    pub tokens: Result<Tokens, String>,
    pub removal: Result<(), String>,
}

/// The tokens of the saved profiles by id, with the ids of unreadable
/// profiles that were removed and the warnings to report for them.
#[derive(Debug)]
pub struct TokensMapLoad {
    pub map: StrMap<Result<Tokens, String>>,
    pub removed_ids: Vec<String>,
    pub warnings: Vec<String>,
}

/// A loaded profile as tokens or an error text.
pub open spec fn loaded_view(r: Result<Tokens, String>) -> Result<Tokens, Seq<char>> {
    match r {
        Ok(t) => Ok(t),
        Err(e) => Err(e@),
    }
}

/// The message for an unreadable profile that could not be removed.
pub open spec fn remove_failed_message(path: Seq<char>, err: Seq<char>) -> Seq<char> {
    "Error: failed to remove invalid profile "@ + path + ": "@ + err
}

/// The warning for an unreadable profile that was removed.
pub open spec fn removed_warning(path: Seq<char>, err: Seq<char>) -> Seq<char> {
    "Removed invalid profile "@ + path + " ("@ + crate::ui::normalized_error(err) + ")"@
}

/// The profiles loaded from the reads, in order (a later read of an id
/// replaces an earlier one): readable ones with their tokens, unreadable ones
/// that could not be removed with the error; removed ones are left out.
pub open spec fn loaded_tokens(reads: Seq<ProfileRead>) -> Map<Seq<char>, Result<Tokens, Seq<char>>>
    decreases reads.len(),
{
    if reads.len() == 0 {
        Map::empty()
    } else {
        let prev = loaded_tokens(reads.drop_last());
        let r = reads.last();
        match profile_id_of(r.path@) {
            None => prev,
            Some(id) => match r.tokens {
                Ok(t) => prev.insert(id, Ok(t)),
                Err(_) => match r.removal {
                    Err(rm) => prev.insert(id, Err(remove_failed_message(r.path@, rm@))),
                    Ok(_) => prev,
                },
            },
        }
    }
}

/// Whether a read is of an unreadable profile that was removed.
pub open spec fn was_removed(r: ProfileRead) -> bool {
    profile_id_of(r.path@) is Some && r.tokens is Err && r.removal is Ok
}

/// The ids of the removed profiles, in order.
pub open spec fn removed_profile_ids(reads: Seq<ProfileRead>) -> Seq<Seq<char>>
    decreases reads.len(),
{
    if reads.len() == 0 {
        Seq::empty()
    } else {
        let prev = removed_profile_ids(reads.drop_last());
        let r = reads.last();
        if was_removed(r) {
            prev.push(profile_id_of(r.path@).unwrap())
        } else {
            prev
        }
    }
}

/// The warnings for the removed profiles, in order.
pub open spec fn removal_warnings(reads: Seq<ProfileRead>) -> Seq<Seq<char>>
    decreases reads.len(),
{
    if reads.len() == 0 {
        Seq::empty()
    } else {
        let prev = removal_warnings(reads.drop_last());
        let r = reads.last();
        if was_removed(r) {
            prev.push(removed_warning(r.path@, r.tokens->Err_0@))
        } else {
            prev
        }
    }
}

/// Gathers the tokens of the saved profiles from what reading their files
/// gave: a readable profile is kept with its tokens; an unreadable one that
/// could not be removed is kept with the error; an unreadable one that was
/// removed is left out, and its id and a warning are reported.
pub fn load_profile_tokens_map(reads: Vec<ProfileRead>) -> (res: TokensMapLoad)
    ensures
        res.map@.map_values(|r: Result<Tokens, String>| loaded_view(r)) == loaded_tokens(reads@),
        texts_view(res.removed_ids@) == removed_profile_ids(reads@),
        texts_view(res.warnings@) == removal_warnings(reads@),
{
    let ghost orig = reads@;
    let mut rest = reads;
    let mut map: StrMap<Result<Tokens, String>> = StrMap::new();
    let mut removed_ids: Vec<String> = Vec::new();
    let mut warnings: Vec<String> = Vec::new();
    let n = rest.len();
    let mut i: usize = 0;
    proof {
        assert(orig.take(0) =~= Seq::<ProfileRead>::empty());
        assert(map@.map_values(|r: Result<Tokens, String>| loaded_view(r)) =~= loaded_tokens(
            orig.take(0),
        ));
        assert(texts_view(removed_ids@) =~= removed_profile_ids(orig.take(0)));
        assert(texts_view(warnings@) =~= removal_warnings(orig.take(0)));
    }
    while i < n
        invariant
            i <= n,
            n == orig.len(),
            rest@ == orig.skip(i as int),
            map@.map_values(|r: Result<Tokens, String>| loaded_view(r)) == loaded_tokens(
                orig.take(i as int),
            ),
            texts_view(removed_ids@) == removed_profile_ids(orig.take(i as int)),
            texts_view(warnings@) == removal_warnings(orig.take(i as int)),
        decreases n - i,
    {
        let r = rest.remove(0);
        let ghost pre = orig.take(i as int);
        let ghost post = orig.take(i + 1);
        let ghost before = map@;
        proof {
            assert(r == orig[i as int]);
            assert(post.drop_last() =~= pre);
            assert(post.last() == r);
            assert(rest@ =~= orig.skip(i + 1));
        }
        let ProfileRead { path, tokens, removal } = r;
        match profile_id_from_path(path.as_str()) {
            None => {},
            Some(id) => {
                match tokens {
                    Ok(t) => {
                        map.insert(id, Ok(t));
                        proof {
                            assert(map@.map_values(|r: Result<Tokens, String>| loaded_view(r))
                                =~= before.map_values(|r: Result<Tokens, String>| loaded_view(r)).insert(
                                id@,
                                loaded_view(map@[id@]),
                            ));
                        }
                    },
                    Err(err) => {
                        match removal {
                            Err(rm) => {
                                let mut msg = concat("Error: failed to remove invalid profile ", path.as_str());
                                push_str(&mut msg, ": ");
                                push_str(&mut msg, rm.as_str());
                                map.insert(id, Err(msg));
                                proof {
                                    assert(map@.map_values(|r: Result<Tokens, String>| loaded_view(r))
                                        =~= before.map_values(|r: Result<Tokens, String>| loaded_view(r)).insert(
                                        id@,
                                        loaded_view(map@[id@]),
                                    ));
                                }
                            },
                            Ok(_) => {
                                let summary = crate::ui::normalize_error(err.as_str());
                                let mut w = concat("Removed invalid profile ", path.as_str());
                                push_str(&mut w, " (");
                                push_str(&mut w, summary.as_str());
                                push_str(&mut w, ")");
                                let ghost rw = texts_view(removed_ids@);
                                let ghost ww = texts_view(warnings@);
                                removed_ids.push(id);
                                warnings.push(w);
                                proof {
                                    assert(texts_view(removed_ids@) =~= rw.push(removed_ids@.last()@));
                                    assert(texts_view(warnings@) =~= ww.push(warnings@.last()@));
                                }
                            },
                        }
                    },
                }
            },
        }
        i = i + 1;
    }
    proof {
        assert(orig.take(n as int) =~= orig);
    }
    TokensMapLoad { map, removed_ids, warnings }
}

/// Drops every label of the given profiles.
pub fn remove_labels_for_ids(labels: &mut Labels, ids: &[String])
    ensures
        label_texts(final(labels)@) == kept_labels(label_texts(old(labels)@), texts_view(ids@), true),
{
    drop_where_listed(labels, ids, true);
}

} // verus!
