//! What the profile commands report, and what deleting profiles does to the
//! records.
use vstd::prelude::*;

use crate::profile_store::{
    forget_profiles, kept_labels, label_texts, remove_labels_for_ids, Labels, ProfilesIndex,
};
use crate::strmap::{texts_view, StrMap};
use crate::text::{concat, owned, push_str};
use crate::ui::Ui;

verus! {

/// What a save reports: the profile's display where its email is known.
pub open spec fn saved_text(has_email: bool, display: Seq<char>) -> Seq<char> {
    if has_email {
        "Saved profile "@ + display
    } else {
        "Saved profile"@
    }
}

/// What a save reports, before styling.
pub fn saved_message(has_email: bool, display: &str) -> (res: String)
    ensures
        res@ == saved_text(has_email, display@),
{
    if has_email {
        concat("Saved profile ", display)
    } else {
        owned("Saved profile")
    }
}

/// What a load reports, before styling.
pub fn loaded_message(display: &str) -> (res: String)
    ensures
        res@ == "Loaded profile "@ + display@,
{
    concat("Loaded profile ", display)
}

/// What a deletion reports: the one profile by its display, or how many.
pub open spec fn deleted_text(displays: Seq<Seq<char>>) -> Seq<char> {
    if displays.len() == 1 {
        "Deleted profile "@ + displays[0]
    } else {
        "Deleted "@ + crate::num::dec_seq(displays.len()) + " profiles."@
    }
}

/// What a deletion reports, before styling.
pub fn deleted_message(displays: &[String]) -> (res: String)
    ensures
        res@ == deleted_text(texts_view(displays@)),
{
    if displays.len() == 1 {
        concat("Deleted profile ", displays[0].as_str())
    } else {
        let mut out = owned("Deleted ");
        push_str(&mut out, crate::num::u64_to_string(displays.len() as u64).as_str());
        push_str(&mut out, " profiles.");
        out
    }
}

/// The message where the selected profile's file is gone.
pub fn profile_not_found(ui: &Ui, use_color: bool) -> (res: String)
    ensures
        !use_color || ui.plain ==> res@ == "Selected profile not found. "@
            + crate::profile_store::list_hint_text(*ui),
        use_color && !ui.plain ==> exists|h: Seq<char>|
            #![trigger crate::ui::list_hint_colored(h, ui.command_name@)]
            crate::ui::list_hint_colored(h, ui.command_name@) && res@ == "Selected profile not found. "@ + h,
{
    let hint = ui.format_list_hint(use_color);
    concat("Selected profile not found. ", hint.as_str())
}

/// A message without its `Error: ` prefix.
pub open spec fn without_error_prefix(m: Seq<char>) -> Seq<char> {
    if crate::text::is_prefix("Error: "@, m) {
        m.skip(7)
    } else {
        m
    }
}

/// The message where the selected profile's login cannot be read.
pub fn invalid_selection_error(err: &str) -> (res: String)
    ensures
        res@ == "Error: selected profile is invalid. "@ + without_error_prefix(err@),
{
    let v = crate::text::chars_of(err);
    let p = crate::text::chars_of("Error: ");
    proof {
        reveal_strlit("Error: ");
    }
    let rest = if crate::text::starts_with(&v, &p) {
        crate::text::string_of(&crate::text::slice_range(&v, 7, v.len()))
    } else {
        owned(err)
    };
    proof {
        if crate::text::is_prefix("Error: "@, err@) {
            assert(v@.subrange(7, v@.len() as int) =~= err@.skip(7));
        }
    }
    concat("Error: selected profile is invalid. ", rest.as_str())
}

/// What a dry-run switch reports, before styling.
pub fn dry_run_message(display: &str) -> (res: String)
    ensures
        res@ == "Dry run: best profile is "@ + display@,
{
    concat("Dry run: best profile is ", display)
}

/// The error where no profile can be switched to automatically, with the
/// hint that usage was unavailable for all of them.
pub fn no_eligible_switch_error(ui: &Ui, use_color: bool) -> (res: String)
    ensures
        !use_color || ui.plain ==> res@ == crate::service::no_eligible_profile_message()
            + crate::ui::hint_text(
            "No switch performed because usage data is unavailable for all profiles."@,
            ui.plain,
        ),
        use_color && !ui.plain ==> exists|h: Seq<char>|
            #![trigger crate::ui::styled_as(h, crate::ui::hint_text("No switch performed because usage data is unavailable for all profiles."@, false), crate::ui::paint_prefix(crate::ui::Paint::Italic))]
            crate::ui::styled_as(
                h,
                crate::ui::hint_text(
                    "No switch performed because usage data is unavailable for all profiles."@,
                    false,
                ),
                crate::ui::paint_prefix(crate::ui::Paint::Italic),
            ) && res@ == crate::service::no_eligible_profile_message() + h,
{
    let hint = ui.format_hint("No switch performed because usage data is unavailable for all profiles.", use_color);
    concat("Error: no eligible profile found for auto-switch.", hint.as_str())
}

/// Drops every record of deleted profiles: their last-used times, their
/// labels and their index entries (and the active profile where it is one
/// of them).
pub fn forget_deleted(usage: &mut StrMap<u64>, labels: &mut Labels, index: &mut ProfilesIndex, ids: &[String])
    ensures
        final(usage)@ == old(usage)@.restrict(Set::new(|k: Seq<char>| !texts_view(ids@).contains(k))),
        label_texts(final(labels)@) == kept_labels(label_texts(old(labels)@), texts_view(ids@), true),
        final(index).profiles@ == old(index).profiles@.remove_keys(
            Set::new(|k: Seq<char>| texts_view(ids@).contains(k)),
        ),
        final(index).active_profile_id == (match crate::auth::opt_seq(old(index).active_profile_id) {
            Some(a) => if texts_view(ids@).contains(a) {
                None
            } else {
                old(index).active_profile_id
            },
            None => None,
        }),
{
    usage.retain_listed(ids, false);
    proof {
        assert(Set::new(|k: Seq<char>| texts_view(ids@).contains(k) == false) =~= Set::new(
            |k: Seq<char>| !texts_view(ids@).contains(k),
        ));
    }
    remove_labels_for_ids(labels, ids);
    forget_profiles(index, ids);
}

} // verus!
