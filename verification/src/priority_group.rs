//! Merging the priority rows that stand for the same account.
//!
//! Rows whose identity (account id, else email, else profile id) agree are
//! merged into one: the row of the group that ranks first as a target gives
//! the id and name, the best state of the group is kept, and the row is
//! current or a candidate where any row of the group is.
use std::cmp::Ordering;
use vstd::prelude::*;

use crate::auth::{email_and_plan, extract_email_and_plan, opt_seq, token_account_id, Tokens};
use crate::priority::{
    ord_from, ord_int, ord_num, row_order, sort_priority_rows, state_order, ranked, then_ord,
    PriorityRow, PriorityState,
};
use crate::text::{
    chars_of, compare_chars, concat, lex_order, lower_chars, lower_seq, owned, push_str, str_eq,
};

verus! {

/// The id of the row for the current login when it is not saved.
pub open spec fn current_row_id() -> Seq<char> {
    "__current__"@
}

/// A row together with what grouping reads about it from the saved profiles.
#[derive(Clone, Debug)]
pub struct PriorityCandidate {
    pub row: PriorityRow,
    /// The identity that rows of one account share.
    pub identity: String,
    /// Whether the profile's tokens could be read.
    pub readable: bool,
    /// When the profile was last used, in seconds.
    pub last_used: u64,
    /// The email shown for the profile.
    pub email: String,
    /// Whether the profile is reserved.
    pub reserved: bool,
}

/// The identity of a row: `account:{id}` or `email:{email}` (email in ASCII
/// lowercase), from the tokens where they can be read, else from the index
/// entry, else `id:{profile id}`.
pub open spec fn identity_key(
    id: Seq<char>,
    tokens: Option<Tokens>,
    entry_account: Option<Seq<char>>,
    entry_email: Option<Seq<char>>,
) -> Seq<char> {
    if id == current_row_id() {
        "id:__current__"@
    } else if tokens matches Some(t) && crate::auth::account_id_of(t) is Some {
        "account:"@ + crate::auth::account_id_of(tokens.unwrap()).unwrap()
    } else if tokens matches Some(t) && email_and_plan(t).0 is Some {
        "email:"@ + lower_seq(email_and_plan(tokens.unwrap()).0.unwrap())
    } else if entry_account is Some {
        "account:"@ + entry_account.unwrap()
    } else if entry_email is Some {
        "email:"@ + lower_seq(entry_email.unwrap())
    } else {
        "id:"@ + id
    }
}

/// The identity under which rows of one account are merged.
pub fn priority_identity_key(
    id: &str,
    tokens: Option<&Tokens>,
    entry_account: Option<&str>,
    entry_email: Option<&str>,
) -> (res: String)
    ensures
        res@ == identity_key(
            id@,
            match tokens {
                Some(t) => Some(*t),
                None => None,
            },
            match entry_account {
                Some(a) => Some(a@),
                None => None,
            },
            match entry_email {
                Some(e) => Some(e@),
                None => None,
            },
        ),
{
    if str_eq(id, "__current__") {
        return owned("id:__current__");
    }
    if let Some(t) = tokens {
        if let Some(account) = token_account_id(t) {
            return concat("account:", account);
        }
        let (email, _plan) = extract_email_and_plan(t);
        if let Some(e) = email {
            let low = crate::text::to_ascii_lowercase(e.as_str());
            return concat("email:", low.as_str());
        }
    }
    if let Some(a) = entry_account {
        return concat("account:", a);
    }
    if let Some(e) = entry_email {
        let low = crate::text::to_ascii_lowercase(e);
        return concat("email:", low.as_str());
    }
    concat("id:", id)
}

/// The email shown for a profile: from its tokens, else from its index
/// entry, else its id.
pub fn priority_profile_email(id: &str, tokens: Option<&Tokens>, entry_email: Option<&str>) -> (res:
    String)
    ensures
        ({
            let from_tokens = match tokens {
                Some(t) => email_and_plan(*t).0,
                None => None,
            };
            match from_tokens {
                Some(e) => res@ == e,
                None => match entry_email {
                    Some(e) => res@ == e@,
                    None => res@ == id@,
                },
            }
        }),
{
    if let Some(t) = tokens {
        let (email, _plan) = extract_email_and_plan(t);
        if let Some(e) = email {
            return e;
        }
    }
    match entry_email {
        Some(e) => owned(e),
        None => owned(id),
    }
}

/// The marker after the name of a reserved profile.
pub open spec fn reserved_marker() -> Seq<char> {
    " [reserved]"@
}

/// The name of a row: the email, then ` [label]` where there is a label, then
/// the reserved marker where the profile is reserved.
pub open spec fn row_name(email: Seq<char>, label: Option<Seq<char>>, reserved: bool) -> Seq<char> {
    let display = match label {
        Some(l) => email + " ["@ + l + "]"@,
        None => email,
    };
    if reserved {
        display + reserved_marker()
    } else {
        display
    }
}

/// The name shown for a row of the ranking.
pub fn profile_name_for_priority_row(email: &str, label: Option<&str>, reserved: bool) -> (res:
    String)
    ensures
        res@ == row_name(
            email@,
            match label {
                Some(l) => Some(l@),
                None => None,
            },
            reserved,
        ),
{
    let mut out = owned(email);
    if let Some(l) = label {
        push_str(&mut out, " [");
        push_str(&mut out, l);
        push_str(&mut out, "]");
    }
    if reserved {
        push_str(&mut out, " [reserved]");
    }
    out
}

/// The ranking row of a saved profile, with what grouping reads about it: it
/// is current where it is the saved profile in use, and a candidate for
/// switching unless it is reserved.
pub fn saved_priority_candidate(
    id: String,
    label: Option<String>,
    current_saved_id: Option<&str>,
    reserved: bool,
    state: PriorityState,
    identity: String,
    readable: bool,
    last_used: u64,
    email: String,
) -> (res: PriorityCandidate)
    ensures
        res.row.id == id,
        res.row.profile_name@ == row_name(email@, opt_seq(label), reserved),
        res.row.label == label,
        res.row.is_current == (current_saved_id matches Some(c) && c@ == id@),
        res.row.candidate == !reserved,
        res.row.state == state,
        res.identity == identity,
        res.readable == readable,
        res.last_used == last_used,
        res.email == email,
        res.reserved == reserved,
{
    let l: Option<&str> = match &label {
        Some(l) => Some(l.as_str()),
        None => None,
    };
    let profile_name = profile_name_for_priority_row(email.as_str(), l, reserved);
    let is_current = match current_saved_id {
        Some(c) => str_eq(c, id.as_str()),
        None => false,
    };
    PriorityCandidate {
        row: PriorityRow { id, profile_name, label, is_current, candidate: !reserved, state },
        identity,
        readable,
        last_used,
        email,
        reserved,
    }
}

/// The ranking row of the current login where it is not saved: named by its
/// email (or "Current profile"), current, and never a candidate for
/// switching.
pub fn current_priority_candidate(
    email: Option<String>,
    state: PriorityState,
    identity: String,
    readable: bool,
) -> (res: PriorityCandidate)
    ensures
        res.row.id@ == current_row_id(),
        res.row.profile_name@ == match email {
            Some(e) => e@,
            None => "Current profile"@,
        },
        res.row.label is None,
        res.row.is_current,
        !res.row.candidate,
        res.row.state == state,
        res.identity == identity,
        res.readable == readable,
        res.last_used == 0,
        res.email@ == match email {
            Some(e) => e@,
            None => "Current profile"@,
        },
        !res.reserved,
{
    let profile_name = match email {
        Some(e) => e,
        None => owned("Current profile"),
    };
    PriorityCandidate {
        row: PriorityRow {
            id: owned("__current__"),
            profile_name: profile_name.clone(),
            label: None,
            is_current: true,
            candidate: false,
            state,
        },
        identity,
        readable,
        last_used: 0,
        email: profile_name,
        reserved: false,
    }
}

// ---------------------------------------------------------------------------
// Which row of a group is kept
// ---------------------------------------------------------------------------

/// The order of two flags where `true` comes first.
pub open spec fn true_first(a: bool, b: bool) -> int {
    if a == b {
        0
    } else if a {
        -1
    } else {
        1
    }
}

/// The order in which the rows of a group are tried as the merged row's
/// target: current first, then labelled, then candidates, then readable
/// ones, then by state, then the most recently used, then by id.
pub open spec fn target_order(l: PriorityCandidate, r: PriorityCandidate) -> int {
    then_ord(
        true_first(l.row.is_current, r.row.is_current),
        then_ord(
            true_first(l.row.label is Some, r.row.label is Some),
            then_ord(
                true_first(l.row.candidate, r.row.candidate),
                then_ord(
                    true_first(l.readable, r.readable),
                    then_ord(
                        state_order(l.row.state, r.row.state),
                        then_ord(
                            ord_int(r.last_used as int, l.last_used as int),
                            lex_order(l.row.id@, r.row.id@),
                        ),
                    ),
                ),
            ),
        ),
    )
}

/// Whether two rows of a group tie on everything that decides the target
/// before recency: being current, having a label, being a candidate, being
/// readable, and the usage state.
pub open spec fn target_tie(l: PriorityCandidate, r: PriorityCandidate) -> bool {
    &&& l.row.is_current == r.row.is_current
    &&& (l.row.label is Some) == (r.row.label is Some)
    &&& l.row.candidate == r.row.candidate
    &&& l.readable == r.readable
    &&& l.row.state == r.row.state
}

/// Of two rows of a group that tie before recency, the more recently used
/// one is tried first as the merged row's target.
pub proof fn lemma_target_prefers_recent(l: PriorityCandidate, r: PriorityCandidate)
    requires
        target_tie(l, r),
        l.last_used > r.last_used,
    ensures
        target_order(l, r) < 0,
        target_order(r, l) > 0,
{
    crate::priority::lemma_state_order_refl(l.row.state);
}

proof fn lemma_target_order_antisym(a: PriorityCandidate, b: PriorityCandidate)
    ensures
        target_order(a, b) == -target_order(b, a),
        -1 <= target_order(a, b) <= 1,
{
    crate::priority::lemma_state_order_props(a.row.state, b.row.state, b.row.state);
    crate::text::lemma_lex_order_antisym(a.row.id@, b.row.id@);
}

proof fn lemma_target_order_trans(a: PriorityCandidate, b: PriorityCandidate, c: PriorityCandidate)
    requires
        target_order(a, b) <= 0,
        target_order(b, c) <= 0,
    ensures
        target_order(a, c) <= 0,
{
    crate::priority::lemma_state_order_props(a.row.state, b.row.state, c.row.state);
    crate::priority::lemma_state_order_props(a.row.state, c.row.state, b.row.state);
    crate::priority::lemma_state_order_props(b.row.state, a.row.state, c.row.state);
    lemma_target_order_antisym(a, b);
    lemma_target_order_antisym(b, c);
    lemma_target_order_antisym(a, c);
    crate::text::lemma_lex_order_antisym(a.row.id@, b.row.id@);
    crate::text::lemma_lex_order_antisym(b.row.id@, c.row.id@);
    crate::text::lemma_lex_order_antisym(a.row.id@, c.row.id@);
    if lex_order(a.row.id@, b.row.id@) <= 0 && lex_order(b.row.id@, c.row.id@) <= 0 {
        crate::text::lemma_lex_order_trans(a.row.id@, b.row.id@, c.row.id@);
    }
}

proof fn lemma_first_min_target_least(g: Seq<PriorityCandidate>, n: int)
    requires
        1 <= n <= g.len(),
    ensures
        0 <= first_min(g, n, false) < n,
        forall|j: int| 0 <= j < n ==> target_order(g[first_min(g, n, false)], #[trigger] g[j]) <= 0,
    decreases n,
{
    if n == 1 {
        lemma_target_order_antisym(g[0], g[0]);
    } else {
        lemma_first_min_target_least(g, n - 1);
        let b = first_min(g, n - 1, false);
        let t = first_min(g, n, false);
        lemma_target_order_antisym(g[n - 1], g[b]);
        lemma_target_order_antisym(g[n - 1], g[n - 1]);
        assert forall|j: int| 0 <= j < n implies target_order(g[t], #[trigger] g[j]) <= 0 by {
            if j < n - 1 && t == n - 1 {
                lemma_target_order_trans(g[n - 1], g[b], g[j]);
            }
        }
    }
}

/// The target of a merged row is the most recently used of the group's
/// rows that tie with it before recency.
pub proof fn lemma_merge_target_most_recent(g: Seq<PriorityCandidate>, j: int)
    requires
        0 <= j < g.len(),
        target_tie(g[first_min(g, g.len() as int, false)], g[j]),
    ensures
        g[first_min(g, g.len() as int, false)].last_used >= g[j].last_used,
{
    let t = first_min(g, g.len() as int, false);
    lemma_first_min_target_least(g, g.len() as int);
    if g[t].last_used < g[j].last_used {
        lemma_target_prefers_recent(g[j], g[t]);
        assert(target_order(g[t], g[j]) <= 0);
    }
}

/// The order in which the rows of a group give the merged row's state: by
/// state, then as targets.
pub open spec fn state_pick_order(l: PriorityCandidate, r: PriorityCandidate) -> int {
    then_ord(state_order(l.row.state, r.row.state), target_order(l, r))
}

/// The first of the first `n` rows that no later row ranks strictly before,
/// scanning from the front (`Iterator::min_by`).
pub open spec fn first_min(g: Seq<PriorityCandidate>, n: int, by_state: bool) -> int
    decreases n,
{
    if n <= 1 {
        0
    } else {
        let b = first_min(g, n - 1, by_state);
        let o = if by_state {
            state_pick_order(g[n - 1], g[b])
        } else {
            target_order(g[n - 1], g[b])
        };
        if o < 0 {
            n - 1
        } else {
            b
        }
    }
}

fn true_first_exec(a: bool, b: bool) -> (res: i8)
    ensures
        res == true_first(a, b),
{
    if a == b {
        0
    } else if a {
        -1
    } else {
        1
    }
}

fn target_order_exec(l: &PriorityCandidate, r: &PriorityCandidate) -> (res: i8)
    ensures
        res == target_order(*l, *r),
        target_tie(*l, *r) && l.last_used > r.last_used ==> res < 0,
        target_tie(*l, *r) && l.last_used < r.last_used ==> res > 0,
{
    proof {
        if target_tie(*l, *r) && l.last_used != r.last_used {
            if l.last_used > r.last_used {
                lemma_target_prefers_recent(*l, *r);
            } else {
                lemma_target_prefers_recent(*r, *l);
            }
        }
    }
    let o = true_first_exec(l.row.is_current, r.row.is_current);
    if o != 0 {
        return o;
    }
    let o = true_first_exec(l.row.label.is_some(), r.row.label.is_some());
    if o != 0 {
        return o;
    }
    let o = true_first_exec(l.row.candidate, r.row.candidate);
    if o != 0 {
        return o;
    }
    let o = true_first_exec(l.readable, r.readable);
    if o != 0 {
        return o;
    }
    let o = crate::priority::state_order_exec(&l.row.state, &r.row.state);
    if o != 0 {
        return o;
    }
    if r.last_used < l.last_used {
        return -1;
    }
    if r.last_used > l.last_used {
        return 1;
    }
    compare_chars(&chars_of(l.row.id.as_str()), &chars_of(r.row.id.as_str()))
}

/// The order of two rows of a group as targets for the merged row.
pub fn priority_group_target_cmp(left: &PriorityCandidate, right: &PriorityCandidate) -> (res:
    Ordering)
    ensures
        ord_num(res) == target_order(*left, *right),
        target_tie(*left, *right) && left.last_used > right.last_used ==> ord_num(res) < 0,
        target_tie(*left, *right) && left.last_used < right.last_used ==> ord_num(res) > 0,
{
    proof {
        crate::text::lemma_lex_order_antisym(left.row.id@, right.row.id@);
    }
    ord_from(target_order_exec(left, right))
}

fn first_min_exec(g: &[PriorityCandidate], by_state: bool) -> (res: usize)
    requires
        g.len() > 0,
    ensures
        res == first_min(g@, g.len() as int, by_state),
        res < g.len(),
{
    let mut best: usize = 0;
    let mut i: usize = 1;
    while i < g.len()
        invariant
            1 <= i <= g.len(),
            best == first_min(g@, i as int, by_state),
            best < i,
        decreases g.len() - i,
    {
        let o = if by_state {
            let s = crate::priority::state_order_exec(&g[i].row.state, &g[best].row.state);
            if s != 0 {
                s
            } else {
                target_order_exec(&g[i], &g[best])
            }
        } else {
            target_order_exec(&g[i], &g[best])
        };
        if o < 0 {
            best = i;
        }
        i = i + 1;
    }
    best
}

// ---------------------------------------------------------------------------
// The label of a merged row
// ---------------------------------------------------------------------------

/// The position of the first current row, or -1.
pub open spec fn first_current(g: Seq<PriorityCandidate>, n: int) -> int
    decreases n,
{
    if n <= 0 {
        -1
    } else {
        let b = first_current(g, n - 1);
        if b >= 0 {
            b
        } else if g[n - 1].row.is_current {
            n - 1
        } else {
            -1
        }
    }
}

/// Among the first `n` rows, the position of the first labelled row whose
/// label in ASCII lowercase sorts lowest, or -1 where no row has a label.
pub open spec fn lowest_label(g: Seq<PriorityCandidate>, n: int) -> int
    decreases n,
{
    if n <= 0 {
        -1
    } else {
        let b = lowest_label(g, n - 1);
        match g[n - 1].row.label {
            None => b,
            Some(l) => if b < 0 || lex_order(lower_seq(l@), lower_seq(g[b].row.label.unwrap()@))
                < 0 {
                n - 1
            } else {
                b
            },
        }
    }
}

/// The label of a merged row: the target's, else that of the first current
/// row, else the lowest label of the group.
pub open spec fn display_label(g: Seq<PriorityCandidate>, t: int) -> Option<Seq<char>> {
    let c = first_current(g, g.len() as int);
    let m = lowest_label(g, g.len() as int);
    if g[t].row.label is Some {
        opt_seq(g[t].row.label)
    } else if c >= 0 && g[c].row.label is Some {
        opt_seq(g[c].row.label)
    } else if m >= 0 {
        opt_seq(g[m].row.label)
    } else {
        None
    }
}

fn first_current_exec(g: &[PriorityCandidate]) -> (res: Option<usize>)
    ensures
        match res {
            Some(i) => i < g.len() && i == first_current(g@, g.len() as int),
            None => first_current(g@, g.len() as int) == -1,
        },
{
    let mut i: usize = 0;
    while i < g.len()
        invariant
            i <= g.len(),
            first_current(g@, i as int) == -1,
        decreases g.len() - i,
    {
        if g[i].row.is_current {
            proof {
                lemma_first_current_stays(g@, i as int + 1, g.len() as int);
            }
            return Some(i);
        }
        i = i + 1;
    }
    None
}

proof fn lemma_first_current_stays(g: Seq<PriorityCandidate>, m: int, n: int)
    requires
        0 < m <= n,
        first_current(g, m) >= 0,
    ensures
        first_current(g, n) == first_current(g, m),
    decreases n - m,
{
    if n > m {
        lemma_first_current_stays(g, m, n - 1);
    }
}

fn lowest_label_exec(g: &[PriorityCandidate]) -> (res: Option<usize>)
    ensures
        match res {
            Some(i) => i < g.len() && i == lowest_label(g@, g.len() as int),
            None => lowest_label(g@, g.len() as int) == -1,
        },
{
    let mut best: Option<usize> = None;
    let mut best_key: Vec<char> = Vec::new();
    let mut i: usize = 0;
    while i < g.len()
        invariant
            i <= g.len(),
            match best {
                Some(b) => b < i && b == lowest_label(g@, i as int) && g@[b as int].row.label is Some
                    && best_key@ == lower_seq(g@[b as int].row.label.unwrap()@),
                None => lowest_label(g@, i as int) == -1,
            },
        decreases g.len() - i,
    {
        match &g[i].row.label {
            None => {},
            Some(l) => {
                let key = lower_chars(&chars_of(l.as_str()));
                let better = match best {
                    None => true,
                    Some(_) => compare_chars(&key, &best_key) < 0,
                };
                if better {
                    best = Some(i);
                    best_key = key;
                }
            },
        }
        i = i + 1;
    }
    best
}

fn clone_opt(o: &Option<String>) -> (res: Option<String>)
    ensures
        res == *o,
{
    match o {
        Some(s) => Some(s.clone()),
        None => None,
    }
}

/// The label of the row merged from a group with the given target.
pub fn priority_display_label(group: &[PriorityCandidate], target: usize) -> (res: Option<String>)
    requires
        target < group.len(),
    ensures
        opt_seq(res) == display_label(group@, target as int),
{
    if group[target].row.label.is_some() {
        return clone_opt(&group[target].row.label);
    }
    if let Some(c) = first_current_exec(group) {
        if group[c].row.label.is_some() {
            return clone_opt(&group[c].row.label);
        }
    }
    match lowest_label_exec(group) {
        Some(m) => clone_opt(&group[m].row.label),
        None => None,
    }
}

// ---------------------------------------------------------------------------
// Merging
// ---------------------------------------------------------------------------

/// Whether any row of a group satisfies a flag.
pub open spec fn any_current(g: Seq<PriorityCandidate>) -> bool {
    exists|i: int| 0 <= i < g.len() && (#[trigger] g[i]).row.is_current
}

/// Whether any row of a group is a candidate.
pub open spec fn any_candidate(g: Seq<PriorityCandidate>) -> bool {
    exists|i: int| 0 <= i < g.len() && (#[trigger] g[i]).row.candidate
}

/// The row merged from a non-empty group.
pub open spec fn merged(g: Seq<PriorityCandidate>) -> PriorityRow {
    let t = first_min(g, g.len() as int, false);
    let s = first_min(g, g.len() as int, true);
    let label = display_label(g, t);
    PriorityRow {
        id: g[t].row.id,
        profile_name: g[t].row.profile_name,
        label: g[t].row.label,
        is_current: any_current(g),
        candidate: any_candidate(g),
        state: g[s].row.state,
    }
}

/// Whether a merged row is the merge of a group: its id and state come from
/// the group's target and best state, its label is the display label, its
/// name is the target's (for the current login) or built from the target's
/// email, and it is current or a candidate where any row of the group is.
pub open spec fn is_merge_of(row: PriorityRow, g: Seq<PriorityCandidate>) -> bool {
    let t = first_min(g, g.len() as int, false);
    let s = first_min(g, g.len() as int, true);
    &&& g.len() > 0
    &&& row.id@ == g[t].row.id@
    &&& row.state == g[s].row.state
    &&& opt_seq(row.label) == display_label(g, t)
    &&& row.profile_name@ == (if g[t].row.id@ == current_row_id() {
        g[t].row.profile_name@
    } else {
        row_name(g[t].email@, display_label(g, t), g[t].reserved)
    })
    &&& row.is_current == any_current(g)
    &&& row.candidate == any_candidate(g)
}

fn clone_state(s: &PriorityState) -> (res: PriorityState)
    ensures
        res == *s,
{
    match s {
        PriorityState::Ready(u) => PriorityState::Ready(crate::priority::PriorityUsage {
            seven_day_left: u.seven_day_left,
            seven_day_reset: clone_opt(&u.seven_day_reset),
            five_hour_left: u.five_hour_left,
            five_hour_reset: clone_opt(&u.five_hour_reset),
            tier: u.tier,
            score: u.score,
        }),
        PriorityState::Unavailable(r) => PriorityState::Unavailable(r.clone()),
    }
}

/// Merges the rows of one account into one.
pub fn merge_priority_rows(group: &[PriorityCandidate]) -> (res: PriorityRow)
    requires
        group.len() > 0,
    ensures
        is_merge_of(res, group@),
{
    let t = first_min_exec(group, false);
    let s = first_min_exec(group, true);
    let label = priority_display_label(group, t);
    let target = &group[t];
    let profile_name = if str_eq(target.row.id.as_str(), "__current__") {
        target.row.profile_name.clone()
    } else {
        let l: Option<&str> = match &label {
            Some(l) => Some(l.as_str()),
            None => None,
        };
        profile_name_for_priority_row(target.email.as_str(), l, target.reserved)
    };
    let mut is_current = false;
    let mut candidate = false;
    let mut i: usize = 0;
    while i < group.len()
        invariant
            i <= group.len(),
            is_current == exists|j: int| 0 <= j < i && (#[trigger] group@[j]).row.is_current,
            candidate == exists|j: int| 0 <= j < i && (#[trigger] group@[j]).row.candidate,
        decreases group.len() - i,
    {
        if group[i].row.is_current {
            is_current = true;
        }
        if group[i].row.candidate {
            candidate = true;
        }
        i = i + 1;
    }
    PriorityRow {
        id: target.row.id.clone(),
        profile_name,
        label,
        is_current,
        candidate,
        state: clone_state(&group[s].row.state),
    }
}

// ---------------------------------------------------------------------------
// Grouping
// ---------------------------------------------------------------------------

/// The rows of a list whose identity is `key`, in order.
pub open spec fn group_of(c: Seq<PriorityCandidate>, key: Seq<char>) -> Seq<PriorityCandidate>
    decreases c.len(),
{
    if c.len() == 0 {
        Seq::empty()
    } else {
        let g = group_of(c.drop_last(), key);
        if c.last().identity@ == key {
            g.push(c.last())
        } else {
            g
        }
    }
}

/// The identities of the rows, in order.
pub open spec fn identities(c: Seq<PriorityCandidate>) -> Seq<Seq<char>> {
    Seq::new(c.len(), |k: int| c[k].identity@)
}

/// Whether a sequence of keys lists each identity of the rows exactly once.
pub open spec fn lists_identities(keys: Seq<Seq<char>>, c: Seq<PriorityCandidate>) -> bool {
    &&& keys.no_duplicates()
    &&& forall|i: int| 0 <= i < keys.len() ==> identities(c).contains(#[trigger] keys[i])
    &&& forall|k: int| 0 <= k < c.len() ==> keys.contains(#[trigger] identities(c)[k])
}

proof fn lemma_group_empty(c: Seq<PriorityCandidate>, key: Seq<char>)
    requires
        !identities(c).contains(key),
    ensures
        group_of(c, key) == Seq::<PriorityCandidate>::empty(),
    decreases c.len(),
{
    if c.len() > 0 {
        assert(identities(c)[c.len() - 1] == c.last().identity@);
        assert(!identities(c.drop_last()).contains(key)) by {
            if identities(c.drop_last()).contains(key) {
                let k = choose|k: int| 0 <= k < c.len() - 1 && identities(c.drop_last())[k] == key;
                assert(identities(c)[k] == key);
            }
        }
        lemma_group_empty(c.drop_last(), key);
    }
}

fn find_key(keys: &Vec<String>, key: &str) -> (res: Option<usize>)
    ensures
        match res {
            Some(k) => k < keys.len() && keys@[k as int]@ == key@,
            None => forall|k: int| 0 <= k < keys.len() ==> (#[trigger] keys@[k])@ != key@,
        },
{
    let mut k: usize = 0;
    while k < keys.len()
        invariant
            k <= keys.len(),
            forall|j: int| 0 <= j < k ==> (#[trigger] keys@[j])@ != key@,
        decreases keys.len() - k,
    {
        if str_eq(keys[k].as_str(), key) {
            return Some(k);
        }
        k = k + 1;
    }
    None
}

/// The keys as texts.
pub open spec fn key_texts(keys: Seq<String>) -> Seq<Seq<char>> {
    Seq::new(keys.len(), |k: int| keys[k]@)
}

/// Whether the rows are the merges of the groups of the keys: the keys list
/// each identity once, each key has its merged row, and each row is the merge
/// of some key's group.
pub open spec fn merges_groups(
    keys: Seq<Seq<char>>,
    c: Seq<PriorityCandidate>,
    rows: Seq<PriorityRow>,
) -> bool {
    &&& lists_identities(keys, c)
    &&& keys.len() == rows.len()
    &&& forall|i: int| 0 <= i < rows.len() ==> #[trigger] merge_of_some_key(rows[i], keys, c)
    &&& forall|k: int| 0 <= k < keys.len() ==> #[trigger] key_has_row(keys[k], rows, c)
}

proof fn lemma_group_member(c: Seq<PriorityCandidate>, key: Seq<char>, j: int)
    requires
        0 <= j < group_of(c, key).len(),
    ensures
        exists|k: int|
            0 <= k < c.len() && c[k] == group_of(c, key)[j] && (#[trigger] c[k]).identity@ == key,
    decreases c.len(),
{
    let g = group_of(c.drop_last(), key);
    if c.last().identity@ == key && j == g.len() {
        assert(c[c.len() - 1] == group_of(c, key)[j]);
    } else {
        assert(group_of(c, key)[j] == g[j]);
        lemma_group_member(c.drop_last(), key, j);
        let k = choose|k: int|
            0 <= k < c.drop_last().len() && c.drop_last()[k] == g[j] && (#[trigger] c.drop_last()[k]).identity@
                == key;
        assert(c[k] == c.drop_last()[k]);
    }
}

/// A reserved profile is never recommended for switching: where only rows of
/// profiles that are not reserved are candidates, a merged row that can be
/// recommended merges a profile that is not reserved and is a candidate.
pub proof fn lemma_recommended_not_reserved(
    keys: Seq<Seq<char>>,
    c: Seq<PriorityCandidate>,
    rows: Seq<PriorityRow>,
    i: int,
)
    requires
        merges_groups(keys, c, rows),
        forall|k: int| 0 <= k < c.len() && (#[trigger] c[k]).row.candidate ==> !c[k].reserved,
        0 <= i < rows.len(),
        crate::priority::recommendable(rows[i]),
    ensures
        exists|k: int|
            0 <= k < c.len() && (#[trigger] c[k]).row.candidate && !c[k].reserved && is_merge_of(
                rows[i],
                group_of(c, c[k].identity@),
            ),
{
    assert(merge_of_some_key(rows[i], keys, c));
    let m = choose|m: int| 0 <= m < keys.len() && is_merge_of(rows[i], group_of(c, #[trigger] keys[m]));
    let g = group_of(c, keys[m]);
    assert(any_candidate(g));
    let j = choose|j: int| 0 <= j < g.len() && (#[trigger] g[j]).row.candidate;
    lemma_group_member(c, keys[m], j);
    let k = choose|k: int| 0 <= k < c.len() && c[k] == g[j] && (#[trigger] c[k]).identity@ == keys[m];
    assert(c[k].row.candidate && !c[k].reserved);
}

/// Whether a row is the merge of the group of one of the keys.
pub open spec fn merge_of_some_key(
    row: PriorityRow,
    keys: Seq<Seq<char>>,
    c: Seq<PriorityCandidate>,
) -> bool {
    exists|k: int| 0 <= k < keys.len() && is_merge_of(row, group_of(c, #[trigger] keys[k]))
}

/// Whether one of the rows is the merge of the group of a key.
pub open spec fn key_has_row(key: Seq<char>, rows: Seq<PriorityRow>, c: Seq<PriorityCandidate>) -> bool {
    exists|i: int| 0 <= i < rows.len() && is_merge_of(#[trigger] rows[i], group_of(c, key))
}

proof fn lemma_sorted_merges(
    kt: Seq<Seq<char>>,
    orig: Seq<PriorityCandidate>,
    before: Seq<PriorityRow>,
    after: Seq<PriorityRow>,
)
    requires
        lists_identities(kt, orig),
        before.len() == kt.len(),
        forall|m: int| 0 <= m < kt.len() ==> is_merge_of(#[trigger] before[m], group_of(orig, kt[m])),
        after.to_multiset() == before.to_multiset(),
    ensures
        exists|keys: Seq<Seq<char>>| merges_groups(keys, orig, after),
{
    broadcast use vstd::seq_lib::group_to_multiset_ensures;

    assert forall|i: int| 0 <= i < after.len() implies #[trigger] merge_of_some_key(
        after[i],
        kt,
        orig,
    ) by {
        assert(after.to_multiset().count(after[i]) > 0);
        assert(before.contains(after[i]));
        let m = choose|m: int| 0 <= m < before.len() && before[m] == after[i];
        assert(is_merge_of(before[m], group_of(orig, kt[m])));
    }
    assert forall|m: int| 0 <= m < kt.len() implies #[trigger] key_has_row(kt[m], after, orig) by {
        assert(before.to_multiset().count(before[m]) > 0);
        assert(after.contains(before[m]));
        let i = choose|i: int| 0 <= i < after.len() && after[i] == before[m];
        assert(is_merge_of(before[m], group_of(orig, kt[m])));
        assert(is_merge_of(after[i], group_of(orig, kt[m])));
    }
    vstd::seq_lib::to_multiset_len(after);
    vstd::seq_lib::to_multiset_len(before);
    assert(kt.len() == after.len());
    assert(lists_identities(kt, orig));
    assert(merges_groups(kt, orig, after));
}

/// Merges the rows of each account into one row and ranks the result. Each
/// identity among the rows gives exactly one merged row, built from all the
/// rows of that identity.
pub fn dedupe_priority_rows(rows: Vec<PriorityCandidate>) -> (res: Vec<PriorityRow>)
    ensures
        ranked(res@),
        exists|keys: Seq<Seq<char>>| merges_groups(keys, rows@, res@),
{
    let ghost orig = rows@;
    let mut rest = rows;
    let mut keys: Vec<String> = Vec::new();
    let mut groups: Vec<Vec<PriorityCandidate>> = Vec::new();
    let mut i: usize = 0;
    let n = rest.len();
    while i < n
        invariant
            i <= n,
            n == orig.len(),
            rest@ == orig.skip(i as int),
            keys.len() == groups.len(),
            key_texts(keys@).no_duplicates(),
            forall|k: int|
                0 <= k < groups.len() ==> (#[trigger] groups@[k])@ == group_of(
                    orig.take(i as int),
                    keys@[k]@,
                ),
            forall|k: int| 0 <= k < groups.len() ==> (#[trigger] groups@[k]).len() > 0,
            lists_identities(key_texts(keys@), orig.take(i as int)),
        decreases n - i,
    {
        let c = rest.remove(0);
        let ghost pre = orig.take(i as int);
        let ghost post = orig.take(i + 1);
        proof {
            assert(c == orig[i as int]);
            assert(post.drop_last() =~= pre);
            assert(post.last() == c);
            assert(rest@ =~= orig.skip(i + 1));
        }
        let found = find_key(&keys, c.identity.as_str());
        let ghost old_keys = key_texts(keys@);
        let ghost old_groups = groups@;
        match found {
            Some(k) => {
                let mut g = groups.remove(k);
                g.push(c);
                groups.insert(k, g);
                proof {
                    assert forall|m: int| 0 <= m < groups.len() implies (#[trigger] groups@[m])@
                        == group_of(post, keys@[m]@) by {
                        if m != k {
                            assert(groups@[m] == old_groups[m]);
                            assert(old_keys[m] != old_keys[k as int]);
                        }
                    }
                    assert forall|k2: int| 0 <= k2 < post.len() implies key_texts(keys@).contains(
                        #[trigger] identities(post)[k2],
                    ) by {
                        if k2 < pre.len() {
                            assert(identities(post)[k2] == identities(pre)[k2]);
                        } else {
                            assert(key_texts(keys@)[k as int] == identities(post)[k2]);
                        }
                    }
                    assert forall|m: int| 0 <= m < keys.len() implies identities(post).contains(
                        #[trigger] key_texts(keys@)[m],
                    ) by {
                        assert(identities(pre).contains(key_texts(keys@)[m]));
                        let w = choose|w: int| 0 <= w < pre.len() && identities(pre)[w] == key_texts(keys@)[m];
                        assert(identities(post)[w] == identities(pre)[w]);
                    }
                }
            },
            None => {
                let ghost key = c.identity@;
                proof {
                    assert(!old_keys.contains(key));
                    assert(!identities(pre).contains(key)) by {
                        if identities(pre).contains(key) {
                            let w = choose|w: int| 0 <= w < pre.len() && identities(pre)[w] == key;
                            assert(old_keys.contains(identities(pre)[w]));
                        }
                    }
                    lemma_group_empty(pre, key);
                }
                keys.push(c.identity.clone());
                let mut g: Vec<PriorityCandidate> = Vec::new();
                g.push(c);
                groups.push(g);
                proof {
                    assert(key_texts(keys@) =~= old_keys.push(key));
                    assert forall|m: int| 0 <= m < groups.len() implies (#[trigger] groups@[m])@
                        == group_of(post, keys@[m]@) by {
                        if m < old_groups.len() {
                            assert(groups@[m] == old_groups[m]);
                            assert(old_keys[m] != key);
                        } else {
                            assert(groups@[m]@ =~= group_of(pre, key).push(orig[i as int]));
                        }
                    }
                    assert forall|k2: int| 0 <= k2 < post.len() implies key_texts(keys@).contains(
                        #[trigger] identities(post)[k2],
                    ) by {
                        if k2 < pre.len() {
                            assert(identities(post)[k2] == identities(pre)[k2]);
                            assert(old_keys.contains(identities(pre)[k2]));
                            let w = choose|w: int| 0 <= w < old_keys.len() && old_keys[w] == identities(pre)[k2];
                            assert(key_texts(keys@)[w] == old_keys[w]);
                        } else {
                            assert(key_texts(keys@)[old_keys.len() as int] == identities(post)[k2]);
                        }
                    }
                    assert forall|m: int| 0 <= m < keys.len() implies identities(post).contains(
                        #[trigger] key_texts(keys@)[m],
                    ) by {
                        if m < old_keys.len() {
                            assert(key_texts(keys@)[m] == old_keys[m]);
                            assert(identities(pre).contains(old_keys[m]));
                            let w = choose|w: int| 0 <= w < pre.len() && identities(pre)[w] == old_keys[m];
                            assert(identities(post)[w] == identities(pre)[w]);
                        } else {
                            assert(identities(post)[i as int] == key);
                        }
                    }
                }
            },
        }
        i = i + 1;
    }
    assert(orig.take(n as int) =~= orig);
    let ghost kt = key_texts(keys@);
    let mut merged: Vec<PriorityRow> = Vec::new();
    let mut k: usize = 0;
    while k < groups.len()
        invariant
            k <= groups.len(),
            keys.len() == groups.len(),
            kt == key_texts(keys@),
            merged.len() == k,
            forall|m: int|
                0 <= m < groups.len() ==> (#[trigger] groups@[m])@ == group_of(orig, kt[m]),
            forall|m: int| 0 <= m < groups.len() ==> (#[trigger] groups@[m]).len() > 0,
            forall|m: int| 0 <= m < k ==> is_merge_of(#[trigger] merged@[m], group_of(orig, kt[m])),
        decreases groups.len() - k,
    {
        let row = merge_priority_rows(groups[k].as_slice());
        merged.push(row);
        k = k + 1;
    }
    let ghost before_sort = merged@;
    sort_priority_rows(&mut merged);
    proof {
        lemma_sorted_merges(kt, orig, before_sort, merged@);
    }
    merged
}

} // verus!
