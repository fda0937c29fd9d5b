//! What the desktop shell is told about the profiles: the overview, the
//! active profile, the switch preview and the outcome of a switch or a
//! reload, built from the ranked priority rows.
use crate::auth::opt_seq;
use crate::ide_reload::{helper_hint, target_name, IdeReloadOutcome, ReloadAppTarget};
use crate::num::{dec_seq, i64_to_string, signed_dec_seq, u64_to_string};
use crate::priority::{best_ready_row, recommendable, PriorityRow, PriorityState};
use crate::text::{
    chars_of, concat, concat3, contains, contains_seq, ends_with, eq_ignore_case, is_suffix,
    owned, push_str, slice_range, str_eq, str_eq_ignore_case, string_of,
};
use vstd::prelude::*;

verus! {

/// A saved profile as the overview shows it.
#[derive(Clone, Debug, PartialEq, Eq)]
pub struct ProfileCard {
    pub label: String,
    pub plan: String,
    pub reserved: bool,
    pub status: String,
    pub seven_day_remaining: String,
    pub five_hour_remaining: String,
}

/// The overview of all profiles.
#[derive(Clone, Debug, PartialEq, Eq)]
pub struct ProfilesOverviewPayload {
    pub workspace_label: String,
    pub profiles: Vec<ProfileCard>,
    pub events: Vec<String>,
    pub last_refresh: String,
}

/// The active profile and how many profiles are reserved.
#[derive(Clone, Debug, PartialEq, Eq)]
pub struct ActiveProfileStatusPayload {
    pub active_profile: String,
    pub summary: String,
    pub reserved_profiles: usize,
}

/// A profile as the switch preview shows it.
#[derive(Clone, Debug, PartialEq, Eq)]
pub struct SwitchProfilePayload {
    pub label: String,
    pub plan: String,
    pub reserved: bool,
    pub status: String,
    pub current: bool,
    pub recommended: bool,
    pub rank: Option<usize>,
    pub seven_day_remaining: String,
    pub five_hour_remaining: String,
    pub unavailable_reason: Option<String>,
}

/// What a switch to a requested profile (or to the best one) would do.
#[derive(Clone, Debug, PartialEq, Eq)]
pub struct SwitchPreviewPayload {
    pub requested_profile: String,
    pub active_profile: Option<String>,
    pub recommended_profile: Option<String>,
    pub can_switch: bool,
    pub summary: String,
    pub profiles: Vec<SwitchProfilePayload>,
    pub manual_hints: Vec<String>,
}

/// What a reload did.
#[derive(Clone, Debug, PartialEq, Eq)]
pub struct ReloadOutcomePayload {
    pub target: String,
    pub attempted: bool,
    pub restarted: bool,
    pub message: String,
    pub manual_hints: Vec<String>,
}

/// What a switch did.
#[derive(Clone, Debug, PartialEq, Eq)]
pub struct SwitchExecutionPayload {
    pub switched_to: String,
    pub previous_profile: Option<String>,
    pub success: bool,
    pub summary: String,
    pub manual_hints: Vec<String>,
}

/// The id of the row for the current, unsaved login.
pub open spec fn current_row_id() -> Seq<char> {
    "__current__"@
}

/// The marker that a reserved profile's name ends with.
pub open spec fn reserved_marker() -> Seq<char> {
    " [reserved]"@
}

/// A profile name without its reserved marker.
pub open spec fn without_reserved_marker(name: Seq<char>) -> Seq<char> {
    if is_suffix(reserved_marker(), name) {
        name.take(name.len() - reserved_marker().len())
    } else {
        name
    }
}

/// The label a row is selected by: its label, else its name without the
/// reserved marker.
pub open spec fn selection_label(row: PriorityRow) -> Seq<char> {
    match row.label {
        Some(l) => l@,
        None => without_reserved_marker(row.profile_name@),
    }
}

/// A profile name without its reserved marker.
pub fn display_without_reserved_marker(name: &str) -> (res: String)
    ensures
        res@ == without_reserved_marker(name@),
{
    let v = chars_of(name);
    let m = chars_of(" [reserved]");
    proof {
        reveal_strlit(" [reserved]");
    }
    if ends_with(&v, &m) {
        let t = slice_range(&v, 0, v.len() - m.len());
        assert(t@ =~= name@.take(name@.len() - reserved_marker().len()));
        return string_of(&t);
    }
    owned(name)
}

/// The label a row is selected by.
pub fn profile_selection_label(row: &PriorityRow) -> (res: String)
    ensures
        res@ == selection_label(*row),
{
    match &row.label {
        Some(l) => l.clone(),
        None => display_without_reserved_marker(row.profile_name.as_str()),
    }
}

/// The status of a row: `active`, `available` or `reserved`.
pub open spec fn status_label(row: PriorityRow) -> Seq<char> {
    if row.is_current {
        "active"@
    } else if row.candidate {
        "available"@
    } else {
        "reserved"@
    }
}

/// The status of a row.
pub fn profile_status_label(row: &PriorityRow) -> (res: String)
    ensures
        res@ == status_label(*row),
{
    if row.is_current {
        owned("active")
    } else if row.candidate {
        owned("available")
    } else {
        owned("reserved")
    }
}

/// The remaining 7-day and 5-hour usage of a row as percentages, and why
/// its usage is unavailable.
pub open spec fn usage_texts(row: PriorityRow) -> (Seq<char>, Seq<char>, Option<Seq<char>>) {
    match row.state {
        PriorityState::Ready(u) => (
            signed_dec_seq(u.seven_day_left as int) + "%"@,
            signed_dec_seq(u.five_hour_left as int) + "%"@,
            None,
        ),
        PriorityState::Unavailable(reason) => ("UNAVAILABLE"@, "UNAVAILABLE"@, Some(reason@)),
    }
}

/// The remaining usage of a row as the payloads show it.
pub fn usage_strings(row: &PriorityRow) -> (res: (String, String, Option<String>))
    ensures
        (res.0@, res.1@, opt_seq(res.2)) == usage_texts(*row),
{
    match &row.state {
        PriorityState::Ready(usage) => {
            let seven = concat(i64_to_string(usage.seven_day_left).as_str(), "%");
            let five = concat(i64_to_string(usage.five_hour_left).as_str(), "%");
            (seven, five, None)
        },
        PriorityState::Unavailable(reason) => (
            owned("UNAVAILABLE"),
            owned("UNAVAILABLE"),
            Some(reason.clone()),
        ),
    }
}

/// The plan shown for a profile: the formatted plan of its login, else
/// `Unknown plan`.
pub open spec fn plan_text(tokens: Option<crate::auth::Tokens>) -> Seq<char> {
    match tokens {
        Some(t) => match crate::auth::email_and_plan(t).1 {
            Some(p) => crate::auth::format_plan_seq(p),
            None => "Unknown plan"@,
        },
        None => "Unknown plan"@,
    }
}

/// The plan shown for a profile, from its login where it could be read.
pub fn profile_plan(tokens: Option<&crate::auth::Tokens>) -> (res: String)
    ensures
        res@ == plan_text(
            match tokens {
                Some(t) => Some(*t),
                None => None,
            },
        ),
{
    let t = match tokens {
        Some(t) => t,
        None => return owned("Unknown plan"),
    };
    let (_, plan) = crate::auth::extract_email_and_plan(t);
    match plan {
        Some(p) => crate::auth::format_plan(p.as_str()),
        None => owned("Unknown plan"),
    }
}

/// A row as an overview card, with its plan.
pub fn profile_card(row: &PriorityRow, plan: &str) -> (res: ProfileCard)
    ensures
        res.label@ == selection_label(*row),
        res.plan@ == plan@,
        res.reserved == !row.candidate,
        res.status@ == status_label(*row),
        res.seven_day_remaining@ == usage_texts(*row).0,
        res.five_hour_remaining@ == usage_texts(*row).1,
{
    let (seven, five, _) = usage_strings(row);
    ProfileCard {
        label: profile_selection_label(row),
        plan: owned(plan),
        reserved: !row.candidate,
        status: profile_status_label(row),
        seven_day_remaining: seven,
        five_hour_remaining: five,
    }
}

/// The summary of a switch preview.
pub open spec fn switch_summary_text(rows: Seq<PriorityRow>, selected: Option<int>, recommended: Option<
    int,
>) -> Seq<char> {
    match selected {
        None => "No eligible profile is available for automatic switching."@,
        Some(s) => {
            let row = rows[s];
            let label = selection_label(row);
            if row.is_current {
                label + " is already the active profile in the shared Rust runtime."@
            } else if !row.candidate {
                label + " is reserved and excluded from automatic switching."@
            } else if row.state is Unavailable {
                label + " is not currently switchable: "@ + row.state->Unavailable_0@ + "."@
            } else if recommended is Some && rows[recommended->0].id@ == row.id@ {
                label + " is the current best switch candidate from the shared Rust runtime."@
            } else {
                match recommended {
                    Some(r) => label + " is available, but "@ + selection_label(rows[r])
                        + " is currently the best switch candidate."@,
                    None => label
                        + " is available, but no recommended auto-switch candidate could be derived."@,
                }
            }
        },
    }
}

/// The summary of a switch preview for the selected and the recommended row.
pub fn switch_summary(rows: &[PriorityRow], selected: Option<usize>, recommended: Option<usize>) -> (res:
    String)
    requires
        selected matches Some(s) ==> s < rows.len(),
        recommended matches Some(r) ==> r < rows.len(),
    ensures
        res@ == switch_summary_text(
            rows@,
            match selected {
                Some(s) => Some(s as int),
                None => None,
            },
            match recommended {
                Some(r) => Some(r as int),
                None => None,
            },
        ),
{
    let s = match selected {
        Some(s) => s,
        None => return owned("No eligible profile is available for automatic switching."),
    };
    let row = &rows[s];
    let label = profile_selection_label(row);
    if row.is_current {
        return concat(label.as_str(), " is already the active profile in the shared Rust runtime.");
    }
    if !row.candidate {
        return concat(label.as_str(), " is reserved and excluded from automatic switching.");
    }
    if let PriorityState::Unavailable(reason) = &row.state {
        let mut out = concat(label.as_str(), " is not currently switchable: ");
        push_str(&mut out, reason.as_str());
        out.push('.');
        proof {
            reveal_strlit(".");
            assert(out@ =~= label@ + " is not currently switchable: "@ + reason@ + "."@);
        }
        return out;
    }
    if let Some(r) = recommended {
        if str_eq(rows[r].id.as_str(), row.id.as_str()) {
            return concat(
                label.as_str(),
                " is the current best switch candidate from the shared Rust runtime.",
            );
        }
        let rec = profile_selection_label(&rows[r]);
        return concat3(
            concat(label.as_str(), " is available, but ").as_str(),
            rec.as_str(),
            " is currently the best switch candidate.",
        );
    }
    concat(label.as_str(), " is available, but no recommended auto-switch candidate could be derived.")
}

/// The hint for an unsaved login.
pub open spec fn unsaved_session_hint() -> Seq<char> {
    "The current auth session is unsaved; save it first if you want label-based switching to stay stable."@
}

/// The hint for a reserved profile.
pub open spec fn reserved_profile_hint() -> Seq<char> {
    "Reserved profiles stay out of automatic-switch candidacy until they are unreserved."@
}

/// The hint for a profile whose usage is unavailable.
pub open spec fn unavailable_profile_hint() -> Seq<char> {
    "Refresh usage data or repair the saved profile before attempting an automatic switch."@
}

/// The hint where no profile can be recommended.
pub open spec fn no_candidate_hint() -> Seq<char> {
    "At least one non-reserved profile with readable usage data is required for automatic switching."@
}

/// The hints of a switch preview, in order: for an unsaved active login, a
/// reserved selection, a selection without usage, and a missing
/// recommendation.
pub open spec fn switch_hint_texts(rows: Seq<PriorityRow>, selected: Option<int>, active: Option<
    int,
>, recommended: Option<int>) -> Seq<Seq<char>> {
    let a = if active is Some && rows[active->0].id@ == current_row_id() {
        seq![unsaved_session_hint()]
    } else {
        Seq::empty()
    };
    let b = if selected is Some && !rows[selected->0].candidate {
        seq![reserved_profile_hint()]
    } else {
        Seq::empty()
    };
    let c = if selected is Some && rows[selected->0].state is Unavailable {
        seq![unavailable_profile_hint()]
    } else {
        Seq::empty()
    };
    let d = if recommended is None {
        seq![no_candidate_hint()]
    } else {
        Seq::empty()
    };
    a + b + c + d
}

/// Texts of strings.
pub open spec fn texts(v: Seq<String>) -> Seq<Seq<char>> {
    Seq::new(v.len(), |i: int| v[i]@)
}

fn push_text(v: &mut Vec<String>, s: &str)
    ensures
        texts(final(v)@) == texts(old(v)@).push(s@),
{
    v.push(owned(s));
    assert(texts(v@) =~= texts(old(v)@).push(s@));
}

/// The manual hints of a switch preview.
pub fn switch_manual_hints(
    rows: &[PriorityRow],
    selected: Option<usize>,
    active: Option<usize>,
    recommended: Option<usize>,
) -> (res: Vec<String>)
    requires
        selected matches Some(s) ==> s < rows.len(),
        active matches Some(a) ==> a < rows.len(),
    ensures
        texts(res@) == switch_hint_texts(
            rows@,
            match selected {
                Some(s) => Some(s as int),
                None => None,
            },
            match active {
                Some(a) => Some(a as int),
                None => None,
            },
            match recommended {
                Some(r) => Some(r as int),
                None => None,
            },
        ),
{
    let mut hints: Vec<String> = Vec::new();
    proof {
        reveal_strlit("__current__");
    }
    let unsaved = match active {
        Some(a) => str_eq(rows[a].id.as_str(), "__current__"),
        None => false,
    };
    if unsaved {
        push_text(
            &mut hints,
            "The current auth session is unsaved; save it first if you want label-based switching to stay stable.",
        );
    }
    let reserved = match selected {
        Some(s) => !rows[s].candidate,
        None => false,
    };
    if reserved {
        push_text(
            &mut hints,
            "Reserved profiles stay out of automatic-switch candidacy until they are unreserved.",
        );
    }
    let unavailable = match selected {
        Some(s) => match &rows[s].state {
            PriorityState::Unavailable(_) => true,
            PriorityState::Ready(_) => false,
        },
        None => false,
    };
    if unavailable {
        push_text(
            &mut hints,
            "Refresh usage data or repair the saved profile before attempting an automatic switch.",
        );
    }
    if recommended.is_none() {
        push_text(
            &mut hints,
            "At least one non-reserved profile with readable usage data is required for automatic switching.",
        );
    }
    proof {
        let sel = match selected {
            Some(s) => Some(s as int),
            None => None,
        };
        let act = match active {
            Some(a) => Some(a as int),
            None => None,
        };
        let rec = match recommended {
            Some(r) => Some(r as int),
            None => None,
        };
        assert(texts(hints@) =~= switch_hint_texts(rows@, sel, act, rec));
    }
    hints
}

/// Whether a row answers to a requested name: its selection label, its
/// profile name or its label, ignoring ASCII case.
pub open spec fn answers_to(row: PriorityRow, requested: Seq<char>) -> bool {
    ||| eq_ignore_case(selection_label(row), requested)
    ||| eq_ignore_case(row.profile_name@, requested)
    ||| (row.label matches Some(l) && eq_ignore_case(l@, requested))
}

fn answers_to_exec(row: &PriorityRow, requested: &str) -> (res: bool)
    ensures
        res == answers_to(*row, requested@),
{
    let label = profile_selection_label(row);
    if str_eq_ignore_case(label.as_str(), requested) {
        return true;
    }
    if str_eq_ignore_case(row.profile_name.as_str(), requested) {
        return true;
    }
    match &row.label {
        Some(l) => str_eq_ignore_case(l.as_str(), requested),
        None => false,
    }
}

/// The first row that answers to a requested name. An error where there
/// are no rows, or where none answers.
pub fn find_requested_profile(rows: &[PriorityRow], requested: &str) -> (res: Result<usize, String>)
    ensures
        rows.len() == 0 ==> (res matches Err(e) && e@
            == "No saved profiles are available for switch preview."@),
        rows.len() > 0 ==> match res {
            Ok(i) => i < rows.len() && answers_to(rows@[i as int], requested@) && forall|j: int|
                0 <= j < i ==> !answers_to(#[trigger] rows@[j], requested@),
            Err(e) => e@ == "Profile '"@ + requested@
                + "' is not available in the shared switcher runtime."@ && forall|j: int|
                0 <= j < rows.len() ==> !answers_to(#[trigger] rows@[j], requested@),
        },
{
    if rows.len() == 0 {
        return Err(owned("No saved profiles are available for switch preview."));
    }
    let mut i: usize = 0;
    while i < rows.len()
        invariant
            i <= rows.len(),
            forall|j: int| 0 <= j < i ==> !answers_to(#[trigger] rows@[j], requested@),
        decreases rows.len() - i,
    {
        if answers_to_exec(&rows[i], requested) {
            return Ok(i);
        }
        i = i + 1;
    }
    Err(concat3("Profile '", requested, "' is not available in the shared switcher runtime."))
}

/// The first row for the active profile.
pub fn active_row(rows: &[PriorityRow]) -> (res: Option<usize>)
    ensures
        match res {
            Some(i) => i < rows.len() && rows@[i as int].is_current && forall|j: int|
                0 <= j < i ==> !(#[trigger] rows@[j]).is_current,
            None => forall|j: int| 0 <= j < rows.len() ==> !(#[trigger] rows@[j]).is_current,
        },
{
    let mut i: usize = 0;
    while i < rows.len()
        invariant
            i <= rows.len(),
            forall|j: int| 0 <= j < i ==> !(#[trigger] rows@[j]).is_current,
        decreases rows.len() - i,
    {
        if rows[i].is_current {
            return Some(i);
        }
        i = i + 1;
    }
    None
}

/// The rank of each row among those that can be recommended, counting from
/// 1 in row order.
pub open spec fn ready_rank(rows: Seq<PriorityRow>, i: int) -> nat
    decreases i,
{
    if i <= 0 {
        0
    } else if recommendable(rows[i - 1]) {
        ready_rank(rows, i - 1) + 1
    } else {
        ready_rank(rows, i - 1)
    }
}

/// Whether a preview line shows a row with its plan, its rank and whether it
/// is recommended.
pub open spec fn switch_line(
    p: SwitchProfilePayload,
    rows: Seq<PriorityRow>,
    i: int,
    plan: Seq<char>,
    recommended: Option<int>,
) -> bool {
    let row = rows[i];
    &&& p.label@ == selection_label(row)
    &&& p.plan@ == plan
    &&& p.reserved == !row.candidate
    &&& p.status@ == status_label(row)
    &&& p.current == row.is_current
    &&& p.recommended == (recommended is Some && rows[recommended->0].id@ == row.id@)
    &&& p.rank == (if recommendable(row) {
        Some((ready_rank(rows, i) + 1) as usize)
    } else {
        None
    })
    &&& (p.seven_day_remaining@, p.five_hour_remaining@, opt_seq(p.unavailable_reason))
        == usage_texts(row)
}

/// Every row as a line of the switch preview: rows that can be recommended
/// are ranked from 1 in order.
pub fn switch_profiles(rows: &[PriorityRow], plans: &[String], recommended: Option<usize>) -> (res: Vec<
    SwitchProfilePayload,
>)
    requires
        plans.len() == rows.len(),
        recommended matches Some(r) ==> r < rows.len(),
    ensures
        res.len() == rows.len(),
        forall|i: int|
            0 <= i < rows.len() ==> switch_line(
                #[trigger] res@[i],
                rows@,
                i,
                plans@[i]@,
                match recommended {
                    Some(r) => Some(r as int),
                    None => None,
                },
            ),
{
    let ghost rec = match recommended {
        Some(r) => Some(r as int),
        None => None,
    };
    let mut out: Vec<SwitchProfilePayload> = Vec::new();
    let mut ranked: usize = 0;
    let mut i: usize = 0;
    while i < rows.len()
        invariant
            i <= rows.len() == plans.len(),
            out.len() == i,
            ranked == ready_rank(rows@, i as int),
            ready_rank(rows@, i as int) <= i,
            recommended matches Some(r) ==> r < rows.len(),
            rec == (match recommended {
                Some(r) => Some(r as int),
                None => None,
            }),
            forall|j: int|
                0 <= j < i ==> switch_line(#[trigger] out@[j], rows@, j, plans@[j]@, rec),
        decreases rows.len() - i,
    {
        let row = &rows[i];
        let ready = row.candidate && match &row.state {
            PriorityState::Ready(_) => true,
            PriorityState::Unavailable(_) => false,
        };
        let rank = if ready {
            ranked = ranked + 1;
            Some(ranked)
        } else {
            None
        };
        let (seven, five, reason) = usage_strings(row);
        let is_recommended = match recommended {
            Some(r) => str_eq(rows[r].id.as_str(), row.id.as_str()),
            None => false,
        };
        let line = SwitchProfilePayload {
            label: profile_selection_label(row),
            plan: plans[i].clone(),
            reserved: !row.candidate,
            status: profile_status_label(row),
            current: row.is_current,
            recommended: is_recommended,
            rank,
            seven_day_remaining: seven,
            five_hour_remaining: five,
            unavailable_reason: reason,
        };
        out.push(line);
        i = i + 1;
    }
    out
}

/// The message of the reload outcome for a target, with the hint for
/// Cursor's protocol helper added where Cursor is covered, the message does
/// not say a protocol reload is available, and no hint names the helper.
pub open spec fn needs_helper_hint(target: ReloadAppTarget, outcome: IdeReloadOutcome) -> bool {
    &&& (target == ReloadAppTarget::All || target == ReloadAppTarget::Cursor)
    &&& !contains_seq(outcome.message@, "protocol reload is available"@)
    &&& forall|i: int|
        0 <= i < outcome.manual_hints.len() ==> !contains_seq(
            #[trigger] outcome.manual_hints@[i]@,
            "ionutvmi.vscode-commands-executor"@,
        )
}

/// The reload outcome as the desktop shell shows it.
pub fn normalize_reload_outcome(target: ReloadAppTarget, outcome: IdeReloadOutcome) -> (res:
    ReloadOutcomePayload)
    ensures
        res.target@ == target_name(target),
        res.attempted == outcome.attempted,
        res.restarted == outcome.restarted,
        res.message@ == outcome.message@,
        texts(res.manual_hints@) == if needs_helper_hint(target, outcome) {
            texts(outcome.manual_hints@).push(helper_hint())
        } else {
            texts(outcome.manual_hints@)
        },
{
    let ghost o = outcome;
    let IdeReloadOutcome { attempted, restarted, message, manual_hints } = outcome;
    let mut hints = manual_hints;
    let covers_cursor = match target {
        ReloadAppTarget::All => true,
        ReloadAppTarget::Cursor => true,
        ReloadAppTarget::Codex => false,
    };
    let mut needs = covers_cursor;
    if needs {
        let mv = chars_of(message.as_str());
        let p = chars_of("protocol reload is available");
        if contains(&mv, &p) {
            needs = false;
        }
    }
    if needs {
        let key = chars_of("ionutvmi.vscode-commands-executor");
        let mut i: usize = 0;
        while needs && i < hints.len()
            invariant
                i <= hints.len(),
                hints@ == o.manual_hints@,
                key@ == "ionutvmi.vscode-commands-executor"@,
                needs ==> forall|j: int|
                    0 <= j < i ==> !contains_seq(
                        #[trigger] hints@[j]@,
                        "ionutvmi.vscode-commands-executor"@,
                    ),
                !needs ==> exists|j: int|
                    0 <= j < hints.len() && contains_seq(
                        #[trigger] hints@[j]@,
                        "ionutvmi.vscode-commands-executor"@,
                    ),
            decreases hints.len() - i,
        {
            let hv = chars_of(hints[i].as_str());
            if contains(&hv, &key) {
                needs = false;
            }
            i = i + 1;
        }
    }
    if needs {
        let ghost before = texts(hints@);
        hints.push(crate::ide_reload::cursor_helper_hint());
        assert(texts(hints@) =~= before.push(helper_hint()));
    }
    ReloadOutcomePayload {
        target: owned(target.label()),
        attempted,
        restarted,
        message,
        manual_hints: hints,
    }
}

/// `s` after a count other than one.
pub open spec fn plural(n: nat) -> Seq<char> {
    if n == 1 {
        ""@
    } else {
        "s"@
    }
}

fn plural_exec(n: usize) -> (res: &'static str)
    ensures
        res@ == plural(n as nat),
{
    proof {
        reveal_strlit("");
        reveal_strlit("s");
    }
    if n == 1 {
        ""
    } else {
        "s"
    }
}

fn usize_text(n: usize) -> (res: String)
    ensures
        res@ == dec_seq(n as nat),
{
    u64_to_string(n as u64)
}

/// What the switch preview says, for the requested profile (or the best
/// one where none is requested).
pub open spec fn preview_fields(
    p: SwitchPreviewPayload,
    rows: Seq<PriorityRow>,
    plans: Seq<String>,
    requested: Option<Seq<char>>,
    selected: Option<int>,
    active: Option<int>,
    recommended: Option<int>,
) -> bool {
    &&& p.requested_profile@ == match requested {
        Some(r) => r,
        None => match selected {
            Some(s) => selection_label(rows[s]),
            None => "No eligible profile"@,
        },
    }
    &&& opt_seq(p.active_profile) == match active {
        Some(a) => Some(selection_label(rows[a])),
        None => None,
    }
    &&& opt_seq(p.recommended_profile) == match recommended {
        Some(r) => Some(selection_label(rows[r])),
        None => None,
    }
    &&& p.can_switch == (selected is Some && recommendable(rows[selected->0]))
    &&& p.summary@ == switch_summary_text(rows, selected, recommended)
    &&& p.profiles.len() == rows.len()
    &&& forall|i: int|
        0 <= i < rows.len() ==> switch_line(#[trigger] p.profiles@[i], rows, i, plans[i]@, recommended)
    &&& texts(p.manual_hints@) == switch_hint_texts(rows, selected, active, recommended)
}

/// The switch preview for a requested profile, or for the best one where
/// none is requested, with the row selected. An error where a profile is
/// requested and no row answers to it.
pub fn build_switch_preview(rows: &[PriorityRow], plans: &[String], requested: Option<&str>) -> (res:
    Result<(SwitchPreviewPayload, Option<usize>), String>)
    requires
        plans.len() == rows.len(),
    ensures
        ({
            let recommended = first_recommendable(rows@);
            let active = first_current(rows@);
            match requested {
                Some(r) => match res {
                    Ok((p, sel)) => sel matches Some(i) && i < rows.len() && rows.len() > 0
                        && answers_to(rows@[i as int], r@) && (forall|j: int|
                        0 <= j < i ==> !answers_to(#[trigger] rows@[j], r@)) && preview_fields(
                        p,
                        rows@,
                        plans@,
                        Some(r@),
                        Some(i as int),
                        active,
                        recommended,
                    ),
                    Err(e) => if rows.len() == 0 {
                        e@ == "No saved profiles are available for switch preview."@
                    } else {
                        e@ == "Profile '"@ + r@
                            + "' is not available in the shared switcher runtime."@ && forall|j: int|
                            0 <= j < rows.len() ==> !answers_to(#[trigger] rows@[j], r@)
                    },
                },
                None => res matches Ok((p, sel)) && (match sel {
                    Some(i) => recommended == Some(i as int),
                    None => recommended is None,
                }) && preview_fields(p, rows@, plans@, None, recommended, active, recommended),
            }
        }),
{
    let recommended = best_ready_row(rows);
    let active = active_row(rows);
    let selected = match requested {
        Some(r) => Some(find_requested_profile(rows, r)?),
        None => recommended,
    };
    proof {
        lemma_first_recommendable(rows@, recommended);
        lemma_first_current(rows@, active);
    }
    let requested_profile = match requested {
        Some(r) => owned(r),
        None => match selected {
            Some(s) => profile_selection_label(&rows[s]),
            None => owned("No eligible profile"),
        },
    };
    let active_profile = match active {
        Some(a) => Some(profile_selection_label(&rows[a])),
        None => None,
    };
    let recommended_profile = match recommended {
        Some(r) => Some(profile_selection_label(&rows[r])),
        None => None,
    };
    let can_switch = match selected {
        Some(s) => rows[s].candidate && match &rows[s].state {
            PriorityState::Ready(_) => true,
            PriorityState::Unavailable(_) => false,
        },
        None => false,
    };
    let preview = SwitchPreviewPayload {
        requested_profile,
        active_profile,
        recommended_profile,
        can_switch,
        summary: switch_summary(rows, selected, recommended),
        profiles: switch_profiles(rows, plans, recommended),
        manual_hints: switch_manual_hints(rows, selected, active, recommended),
    };
    Ok((preview, selected))
}

/// The first row that can be recommended.
pub open spec fn first_recommendable(rows: Seq<PriorityRow>) -> Option<int> {
    if exists|i: int| 0 <= i < rows.len() && recommendable(#[trigger] rows[i]) {
        Some(
            choose|i: int|
                0 <= i < rows.len() && recommendable(#[trigger] rows[i]) && forall|j: int|
                    0 <= j < i ==> !recommendable(#[trigger] rows[j]),
        )
    } else {
        None
    }
}

/// The first row for the active profile.
pub open spec fn first_current(rows: Seq<PriorityRow>) -> Option<int> {
    if exists|i: int| 0 <= i < rows.len() && (#[trigger] rows[i]).is_current {
        Some(
            choose|i: int|
                0 <= i < rows.len() && (#[trigger] rows[i]).is_current && forall|j: int|
                    0 <= j < i ==> !(#[trigger] rows[j]).is_current,
        )
    } else {
        None
    }
}

proof fn lemma_first_recommendable(rows: Seq<PriorityRow>, found: Option<usize>)
    requires
        match found {
            Some(i) => i < rows.len() && recommendable(rows[i as int]) && forall|j: int|
                0 <= j < i ==> !recommendable(#[trigger] rows[j]),
            None => forall|j: int| 0 <= j < rows.len() ==> !recommendable(#[trigger] rows[j]),
        },
    ensures
        first_recommendable(rows) == match found {
            Some(i) => Some(i as int),
            None => None,
        },
{
    if let Some(i) = found {
        let c = choose|k: int|
            0 <= k < rows.len() && recommendable(#[trigger] rows[k]) && forall|j: int|
                0 <= j < k ==> !recommendable(#[trigger] rows[j]);
        assert(recommendable(rows[i as int]));
        if c < i {
            assert(!recommendable(rows[c]));
        }
        if c > i {
            assert(!recommendable(rows[i as int]));
        }
    }
}

proof fn lemma_first_current(rows: Seq<PriorityRow>, found: Option<usize>)
    requires
        match found {
            Some(i) => i < rows.len() && rows[i as int].is_current && forall|j: int|
                0 <= j < i ==> !(#[trigger] rows[j]).is_current,
            None => forall|j: int| 0 <= j < rows.len() ==> !(#[trigger] rows[j]).is_current,
        },
    ensures
        first_current(rows) == match found {
            Some(i) => Some(i as int),
            None => None,
        },
{
    if let Some(i) = found {
        let c = choose|k: int|
            0 <= k < rows.len() && (#[trigger] rows[k]).is_current && forall|j: int|
                0 <= j < k ==> !(#[trigger] rows[j]).is_current;
        assert(rows[i as int].is_current);
        if c < i {
            assert(!rows[c].is_current);
        }
        if c > i {
            assert(!rows[i as int].is_current);
        }
    }
}

/// The events of the overview: how many profiles there are, which is
/// active, how many are reserved, and whether the active login is unsaved.
pub open spec fn overview_events(rows: Seq<PriorityRow>, reserved: nat) -> Seq<Seq<char>> {
    let n = rows.len();
    let first = seq![
        "Canonical Rust runtime returned "@ + dec_seq(n) + " profile"@ + plural(n)
            + " for the desktop shell."@,
    ];
    let active = first_current(rows);
    let b = match active {
        Some(a) => seq!["Active profile: "@ + selection_label(rows[a]) + "."@],
        None => Seq::empty(),
    };
    let c = if reserved > 0 {
        seq![
            dec_seq(reserved) + " reserved profile"@ + plural(reserved)
                + " stay out of auto-switch candidacy."@,
        ]
    } else {
        Seq::empty()
    };
    let d = if active is Some && rows[active->0].id@ == current_row_id() {
        seq![
            "Current auth session is not saved yet; the shared service still exposes it as the active profile."@,
        ]
    } else {
        Seq::empty()
    };
    first + b + c + d
}

/// The overview of the ranked rows, each with its plan.
pub fn profiles_overview_payload(
    rows: &[PriorityRow],
    plans: &[String],
    reserved_profiles: usize,
    last_refresh: String,
) -> (res: ProfilesOverviewPayload)
    requires
        plans.len() == rows.len(),
    ensures
        res.workspace_label@ == "Shared runtime: "@ + dec_seq(rows.len() as nat) + " profile"@
            + plural(rows.len() as nat),
        res.profiles.len() == rows.len(),
        forall|i: int|
            0 <= i < rows.len() ==> {
                let c = #[trigger] res.profiles@[i];
                &&& c.label@ == selection_label(rows@[i])
                &&& c.plan@ == plans@[i]@
                &&& c.reserved == !rows@[i].candidate
                &&& c.status@ == status_label(rows@[i])
                &&& c.seven_day_remaining@ == usage_texts(rows@[i]).0
                &&& c.five_hour_remaining@ == usage_texts(rows@[i]).1
            },
        texts(res.events@) == overview_events(rows@, reserved_profiles as nat),
        res.last_refresh == last_refresh,
{
    let mut cards: Vec<ProfileCard> = Vec::new();
    let mut i: usize = 0;
    while i < rows.len()
        invariant
            i <= rows.len() == plans.len(),
            cards.len() == i,
            forall|j: int|
                0 <= j < i ==> {
                    let c = #[trigger] cards@[j];
                    &&& c.label@ == selection_label(rows@[j])
                    &&& c.plan@ == plans@[j]@
                    &&& c.reserved == !rows@[j].candidate
                    &&& c.status@ == status_label(rows@[j])
                    &&& c.seven_day_remaining@ == usage_texts(rows@[j]).0
                    &&& c.five_hour_remaining@ == usage_texts(rows@[j]).1
                },
        decreases rows.len() - i,
    {
        cards.push(profile_card(&rows[i], plans[i].as_str()));
        i = i + 1;
    }
    let n = rows.len();
    let count = usize_text(n);
    let mut first = concat("Canonical Rust runtime returned ", count.as_str());
    push_str(&mut first, " profile");
    push_str(&mut first, plural_exec(n));
    push_str(&mut first, " for the desktop shell.");
    let mut events: Vec<String> = Vec::new();
    events.push(first);
    let active = active_row(rows);
    proof {
        lemma_first_current(rows@, active);
    }
    match active {
        Some(a) => {
            let label = profile_selection_label(&rows[a]);
            let mut line = concat("Active profile: ", label.as_str());
            line.push('.');
            proof {
                reveal_strlit(".");
                assert(line@ =~= "Active profile: "@ + label@ + "."@);
            }
            events.push(line);
        },
        None => {},
    }
    if reserved_profiles > 0 {
        let mut line = usize_text(reserved_profiles);
        push_str(&mut line, " reserved profile");
        push_str(&mut line, plural_exec(reserved_profiles));
        push_str(&mut line, " stay out of auto-switch candidacy.");
        events.push(line);
    }
    proof {
        reveal_strlit("__current__");
    }
    let unsaved = match active {
        Some(a) => str_eq(rows[a].id.as_str(), "__current__"),
        None => false,
    };
    if unsaved {
        events.push(
            owned(
                "Current auth session is not saved yet; the shared service still exposes it as the active profile.",
            ),
        );
    }
    proof {
        assert(texts(events@) =~= overview_events(rows@, reserved_profiles as nat));
    }
    let mut label = concat("Shared runtime: ", count.as_str());
    push_str(&mut label, " profile");
    push_str(&mut label, plural_exec(n));
    ProfilesOverviewPayload { workspace_label: label, profiles: cards, events, last_refresh }
}

/// What the active-profile status says of the ranked rows.
pub open spec fn active_status_fields(p: ActiveProfileStatusPayload, rows: Seq<PriorityRow>, reserved: usize) -> bool {
    let active = first_current(rows);
    let label = match active {
        Some(a) => selection_label(rows[a]),
        None => "No active profile"@,
    };
    &&& p.active_profile@ == label
    &&& p.summary@ == match active {
        Some(a) => if rows[a].id@ == current_row_id() {
            label + " is active in auth.json but has not been saved as a reusable profile yet."@
        } else {
            label + " is the current "@ + status_label(rows[a])
                + " profile exposed by the shared Rust query service."@
        },
        None => "No active profile could be derived from the current auth state."@,
    }
    &&& p.reserved_profiles == reserved
}

/// The status of the active profile among the ranked rows.
pub fn active_profile_status_payload(rows: &[PriorityRow], reserved_profiles: usize) -> (res:
    ActiveProfileStatusPayload)
    ensures
        active_status_fields(res, rows@, reserved_profiles),
{
    let active = active_row(rows);
    proof {
        lemma_first_current(rows@, active);
        reveal_strlit("__current__");
    }
    let label = match active {
        Some(a) => profile_selection_label(&rows[a]),
        None => owned("No active profile"),
    };
    let summary = match active {
        Some(a) => {
            if str_eq(rows[a].id.as_str(), "__current__") {
                concat(
                    label.as_str(),
                    " is active in auth.json but has not been saved as a reusable profile yet.",
                )
            } else {
                let state = profile_status_label(&rows[a]);
                concat3(
                    concat(label.as_str(), " is the current ").as_str(),
                    state.as_str(),
                    " profile exposed by the shared Rust query service.",
                )
            }
        },
        None => owned("No active profile could be derived from the current auth state."),
    };
    ActiveProfileStatusPayload { active_profile: label, summary, reserved_profiles }
}

/// The number of profiles that the index marks reserved.
pub open spec fn reserved_count(
    m: Map<Seq<char>, crate::profile_store::ProfileIndexEntry>,
    ks: Seq<Seq<char>>,
) -> nat
    decreases ks.len(),
{
    if ks.len() == 0 {
        0
    } else {
        reserved_count(m, ks.drop_last()) + if m[ks.last()].reserved {
            1nat
        } else {
            0nat
        }
    }
}

/// How many saved profiles are reserved.
pub fn reserved_profile_count(index: &crate::profile_store::ProfilesIndex) -> (res: usize)
    ensures
        res == reserved_count(index.profiles@, index.profiles.key_seq()),
{
    let ghost m = index.profiles@;
    let keys = index.profiles.keys();
    let ghost ks = index.profiles.key_seq();
    let mut n: usize = 0;
    let mut i: usize = 0;
    while i < keys.len()
        invariant
            i <= keys.len() == ks.len(),
            forall|j: int| 0 <= j < keys@.len() ==> #[trigger] keys@[j]@ == ks[j],
            forall|k: Seq<char>|
                #![trigger m.dom().contains(k)]
                #![trigger ks.contains(k)]
                m.dom().contains(k) <==> ks.contains(k),
            m == index.profiles@,
            n == reserved_count(m, ks.take(i as int)),
            n <= i,
        decreases keys.len() - i,
    {
        proof {
            assert(keys@[i as int]@ == ks[i as int]);
            assert(ks.contains(ks[i as int]));
            assert(ks.take(i + 1).drop_last() =~= ks.take(i as int));
            assert(ks.take(i + 1).last() == ks[i as int]);
        }
        match index.profiles.get(keys[i].as_str()) {
            Some(e) => {
                if e.reserved {
                    n = n + 1;
                }
            },
            None => {},
        }
        i = i + 1;
    }
    proof {
        assert(ks.take(ks.len() as int) =~= ks);
    }
    n
}

/// The message where no profile can be switched to.
pub open spec fn no_eligible_profile_message() -> Seq<char> {
    "Error: no eligible profile found for auto-switch."@
}

/// Whether the selected profile may be loaded: one must be selected, and it
/// must be switchable unless it is already the active one.
pub fn check_switch(preview: &SwitchPreviewPayload, selected_display: Option<&str>) -> (res: Result<
    (),
    String,
>)
    ensures
        match selected_display {
            None => res matches Err(e) && e@ == no_eligible_profile_message(),
            Some(d) => if !preview.can_switch && opt_seq(preview.active_profile) != Some(d@) {
                res matches Err(e) && e@ == "Profile '"@ + d@
                    + "' is not currently switchable from the shared Rust runtime."@
            } else {
                res is Ok
            },
        },
{
    let d = match selected_display {
        Some(d) => d,
        None => return Err(owned("Error: no eligible profile found for auto-switch.")),
    };
    let is_active = match &preview.active_profile {
        Some(a) => str_eq(a.as_str(), d),
        None => false,
    };
    if !preview.can_switch && !is_active {
        return Err(concat3("Profile '", d, "' is not currently switchable from the shared Rust runtime."));
    }
    Ok(())
}

/// How a reload target is named in a switch summary.
pub open spec fn target_display(target: Seq<char>) -> Seq<char> {
    if target == "all"@ {
        "all-target"@
    } else if target == "codex"@ {
        "Codex"@
    } else if target == "cursor"@ {
        "Cursor"@
    } else {
        "requested"@
    }
}

/// How a reload target is named in a switch summary.
pub fn reload_target_display(target: &str) -> (res: &'static str)
    ensures
        res@ == target_display(target@),
{
    proof {
        reveal_strlit("all");
        reveal_strlit("codex");
        reveal_strlit("cursor");
        reveal_strlit("all-target");
        reveal_strlit("Codex");
        reveal_strlit("Cursor");
        reveal_strlit("requested");
    }
    if str_eq(target, "all") {
        "all-target"
    } else if str_eq(target, "codex") {
        "Codex"
    } else if str_eq(target, "cursor") {
        "Cursor"
    } else {
        "requested"
    }
}

/// What a switch to the selected profile reports, after the profile was
/// loaded and the apps were reloaded where asked: the preview's hints and
/// the reload's, and a summary that names the profile and the reload.
pub fn switch_execution_payload(
    preview: SwitchPreviewPayload,
    selected_display: &str,
    reload: Option<ReloadOutcomePayload>,
) -> (res: SwitchExecutionPayload)
    ensures
        res.switched_to@ == selected_display@,
        res.previous_profile == preview.active_profile,
        res.success,
        res.summary@ == match reload {
            Some(r) => "Loaded "@ + selected_display@
                + " via the shared Rust switch service and processed "@ + target_display(r.target@)
                + " reload guidance."@,
            None => "Loaded "@ + selected_display@ + " via the shared Rust switch service."@,
        },
        texts(res.manual_hints@) == match reload {
            Some(r) => texts(preview.manual_hints@) + texts(r.manual_hints@),
            None => texts(preview.manual_hints@),
        },
{
    let ghost r0 = reload;
    let SwitchPreviewPayload { active_profile, manual_hints, .. } = preview;
    let mut hints = manual_hints;
    let summary = match reload {
        Some(r) => {
            let ghost before = texts(hints@);
            let mut i: usize = 0;
            while i < r.manual_hints.len()
                invariant
                    i <= r.manual_hints.len(),
                    texts(hints@) == before + texts(r.manual_hints@).take(i as int),
                decreases r.manual_hints.len() - i,
            {
                let ghost prev = texts(hints@);
                hints.push(r.manual_hints[i].clone());
                proof {
                    assert(texts(hints@) =~= prev.push(r.manual_hints@[i as int]@));
                    assert(texts(r.manual_hints@).take(i + 1) =~= texts(r.manual_hints@).take(
                        i as int,
                    ).push(r.manual_hints@[i as int]@));
                    assert(texts(hints@) =~= before + texts(r.manual_hints@).take(i + 1));
                }
                i = i + 1;
            }
            assert(texts(r.manual_hints@).take(r.manual_hints.len() as int) =~= texts(
                r.manual_hints@,
            ));
            let mut s = concat3("Loaded ", selected_display, " via the shared Rust switch service and processed ");
            push_str(&mut s, reload_target_display(r.target.as_str()));
            push_str(&mut s, " reload guidance.");
            s
        },
        None => concat3("Loaded ", selected_display, " via the shared Rust switch service."),
    };
    SwitchExecutionPayload {
        switched_to: owned(selected_display),
        previous_profile: active_profile,
        success: true,
        summary,
        manual_hints: hints,
    }
}

} // verus!
