//! The priority ranking of saved profiles: which login to switch to next.
//!
//! A profile whose usage could be read is `Ready`; it falls in tier 0 when
//! both its 5-hour and 7-day windows have quota left, tier 1 when the 5-hour
//! window is spent, tier 2 when the 7-day window is spent. Within tier 0 the
//! score `70 * 7d% + 30 * 5h%` decides. Rows sort by tier, then score
//! (higher first), then label, then id; unavailable rows come last.
use std::cmp::Ordering;
use vstd::prelude::*;

use crate::auth::{email_and_plan, is_api_key_tokens, non_empty, opt_seq, Tokens};
use crate::text::{compare_chars, chars_of, lex_order, lower_chars, lower_seq, owned, trim_seq};

verus! {

/// The usage of a profile whose windows could be read.
#[derive(Clone, Debug)]
pub struct PriorityUsage {
    pub seven_day_left: i64,
    pub seven_day_reset: Option<String>,
    pub five_hour_left: i64,
    pub five_hour_reset: Option<String>,
    pub tier: u8,
    pub score: i64,
}

/// Whether a profile's usage could be read, and if not why.
#[derive(Clone, Debug)]
pub enum PriorityState {
    Ready(PriorityUsage),
    Unavailable(String),
}

/// One line of the priority ranking.
#[derive(Clone, Debug)]
pub struct PriorityRow {
    pub id: String,
    pub profile_name: String,
    pub label: Option<String>,
    pub is_current: bool,
    pub candidate: bool,
    pub state: PriorityState,
}

/// The weight of the 7-day window in the score.
pub const SCORE_7D_WEIGHT: i64 = 70;

/// The weight of the 5-hour window in the score.
pub const SCORE_5H_WEIGHT: i64 = 30;

// ---------------------------------------------------------------------------
// Three-way comparisons as integers: -1, 0 or 1
// ---------------------------------------------------------------------------

/// The comparison of two integers.
pub open spec fn ord_int(a: int, b: int) -> int {
    if a < b {
        -1
    } else if a > b {
        1
    } else {
        0
    }
}

/// The first comparison that is not equal, else the second.
pub open spec fn then_ord(a: int, b: int) -> int {
    if a != 0 {
        a
    } else {
        b
    }
}

/// The number of an `Ordering`.
pub open spec fn ord_num(o: Ordering) -> int {
    match o {
        Ordering::Less => -1,
        Ordering::Equal => 0,
        Ordering::Greater => 1,
    }
}

pub(crate) fn ord_from(n: i8) -> (res: Ordering)
    requires
        -1 <= n <= 1,
    ensures
        ord_num(res) == n,
{
    if n < 0 {
        Ordering::Less
    } else if n > 0 {
        Ordering::Greater
    } else {
        Ordering::Equal
    }
}

fn ord_i64(a: i64, b: i64) -> (res: i8)
    ensures
        res == ord_int(a as int, b as int),
{
    if a < b {
        -1
    } else if a > b {
        1
    } else {
        0
    }
}

// ---------------------------------------------------------------------------
// Tier and score
// ---------------------------------------------------------------------------

/// The tier of a profile with the given quota left: 2 when the 7-day window
/// is spent, 1 when the 5-hour window is, else 0.
pub open spec fn tier_of(five_hour_left: int, seven_day_left: int) -> int {
    if seven_day_left <= 0 {
        2
    } else if five_hour_left <= 0 {
        1
    } else {
        0
    }
}

/// The score of a profile: `70 * 7d% + 30 * 5h%` in tier 0, else 0.
pub open spec fn score_of(five_hour_left: int, seven_day_left: int) -> int {
    if tier_of(five_hour_left, seven_day_left) == 0 {
        seven_day_left * 70 + five_hour_left * 30
    } else {
        0
    }
}

/// The usage entry of a profile with the given quota left and resets. The
/// score must fit in an `i64`.
pub fn priority_usage(
    five_hour_left: i64,
    seven_day_left: i64,
    five_hour_reset: Option<String>,
    seven_day_reset: Option<String>,
) -> (res: PriorityUsage)
    requires
        score_of(five_hour_left as int, seven_day_left as int) <= i64::MAX,
    ensures
        res.five_hour_left == five_hour_left,
        res.seven_day_left == seven_day_left,
        res.five_hour_reset == five_hour_reset,
        res.seven_day_reset == seven_day_reset,
        res.tier == tier_of(five_hour_left as int, seven_day_left as int),
        res.score == score_of(five_hour_left as int, seven_day_left as int),
{
    let tier: u8 = if seven_day_left <= 0 {
        2
    } else if five_hour_left <= 0 {
        1
    } else {
        0
    };
    let score: i64 = if tier == 0 {
        seven_day_left * SCORE_7D_WEIGHT + five_hour_left * SCORE_5H_WEIGHT
    } else {
        0
    };
    PriorityUsage {
        seven_day_left,
        seven_day_reset,
        five_hour_left,
        five_hour_reset,
        tier,
        score,
    }
}

// ---------------------------------------------------------------------------
// Orders
// ---------------------------------------------------------------------------

/// The order of two states: ready before unavailable; among ready ones the
/// lower tier first, then the higher score.
pub open spec fn state_order(l: PriorityState, r: PriorityState) -> int {
    match (l, r) {
        (PriorityState::Ready(a), PriorityState::Ready(b)) => then_ord(
            ord_int(a.tier as int, b.tier as int),
            ord_int(b.score as int, a.score as int),
        ),
        (PriorityState::Ready(_), PriorityState::Unavailable(_)) => -1,
        (PriorityState::Unavailable(_), PriorityState::Ready(_)) => 1,
        (PriorityState::Unavailable(_), PriorityState::Unavailable(_)) => 0,
    }
}

/// The text a row sorts by among equals: its label, else its id, in ASCII
/// lowercase.
pub open spec fn sort_label(row: PriorityRow) -> Seq<char> {
    match row.label {
        Some(l) => lower_seq(l@),
        None => lower_seq(row.id@),
    }
}

/// The ranking order of two rows: by state, then by sort label, then by id.
pub open spec fn row_order(l: PriorityRow, r: PriorityRow) -> int {
    then_ord(
        state_order(l.state, r.state),
        then_ord(lex_order(sort_label(l), sort_label(r)), lex_order(l.id@, r.id@)),
    )
}

/// A usage state ties with itself.
pub proof fn lemma_state_order_refl(a: PriorityState)
    ensures
        state_order(a, a) == 0,
{
}

/// The usage-state order is antisymmetric and transitive.
pub proof fn lemma_state_order_props(a: PriorityState, b: PriorityState, c: PriorityState)
    ensures
        state_order(a, b) == -state_order(b, a),
        -1 <= state_order(a, b) <= 1,
        state_order(a, b) <= 0 && state_order(b, c) <= 0 ==> state_order(a, c) <= 0,
        state_order(a, b) <= 0 && state_order(b, c) <= 0 && (state_order(a, b) < 0 || state_order(
            b,
            c,
        ) < 0) ==> state_order(a, c) < 0,
{
    lemma_state_order(a, b, c);
}

proof fn lemma_state_order(a: PriorityState, b: PriorityState, c: PriorityState)
    ensures
        state_order(a, b) == -state_order(b, a),
        -1 <= state_order(a, b) <= 1,
        state_order(a, b) <= 0 && state_order(b, c) <= 0 ==> state_order(a, c) <= 0,
        state_order(a, b) <= 0 && state_order(b, c) <= 0 && (state_order(a, b) < 0 || state_order(
            b,
            c,
        ) < 0) ==> state_order(a, c) < 0,
{
}

/// The ranking order is antisymmetric: swapping the rows flips the result,
/// and only a row with the same sort label and id compares equal.
pub proof fn lemma_row_order_antisymmetric(a: PriorityRow, b: PriorityRow)
    ensures
        row_order(a, b) == -row_order(b, a),
        -1 <= row_order(a, b) <= 1,
        row_order(a, b) == 0 ==> a.id@ == b.id@ && sort_label(a) == sort_label(b),
{
    lemma_state_order(a.state, b.state, b.state);
    crate::text::lemma_lex_order_antisym(sort_label(a), sort_label(b));
    crate::text::lemma_lex_order_antisym(a.id@, b.id@);
}

/// The ranking order is transitive, so sorting by it is well defined.
pub proof fn lemma_row_order_transitive(a: PriorityRow, b: PriorityRow, c: PriorityRow)
    requires
        row_order(a, b) <= 0,
        row_order(b, c) <= 0,
    ensures
        row_order(a, c) <= 0,
{
    lemma_state_order(a.state, b.state, c.state);
    lemma_row_order_antisymmetric(a, b);
    lemma_row_order_antisymmetric(b, c);
    lemma_row_order_antisymmetric(a, c);
    let (la, lb, lc) = (sort_label(a), sort_label(b), sort_label(c));
    crate::text::lemma_lex_order_antisym(la, lb);
    crate::text::lemma_lex_order_antisym(lb, lc);
    crate::text::lemma_lex_order_antisym(la, lc);
    crate::text::lemma_lex_order_antisym(a.id@, b.id@);
    crate::text::lemma_lex_order_antisym(b.id@, c.id@);
    crate::text::lemma_lex_order_antisym(a.id@, c.id@);
    if lex_order(la, lb) <= 0 && lex_order(lb, lc) <= 0 {
        crate::text::lemma_lex_order_trans(la, lb, lc);
    }
    if lex_order(a.id@, b.id@) <= 0 && lex_order(b.id@, c.id@) <= 0 {
        crate::text::lemma_lex_order_trans(a.id@, b.id@, c.id@);
    }
}

fn sort_label_exec(row: &PriorityRow) -> (res: Vec<char>)
    ensures
        res@ == sort_label(*row),
{
    match &row.label {
        Some(l) => lower_chars(&chars_of(l.as_str())),
        None => lower_chars(&chars_of(row.id.as_str())),
    }
}

pub(crate) fn state_order_exec(l: &PriorityState, r: &PriorityState) -> (res: i8)
    ensures
        res == state_order(*l, *r),
{
    match (l, r) {
        (PriorityState::Ready(a), PriorityState::Ready(b)) => {
            if a.tier < b.tier {
                -1
            } else if a.tier > b.tier {
                1
            } else {
                ord_i64(b.score, a.score)
            }
        },
        (PriorityState::Ready(_), PriorityState::Unavailable(_)) => -1,
        (PriorityState::Unavailable(_), PriorityState::Ready(_)) => 1,
        (PriorityState::Unavailable(_), PriorityState::Unavailable(_)) => 0,
    }
}

fn row_order_exec(l: &PriorityRow, r: &PriorityRow) -> (res: i8)
    ensures
        res == row_order(*l, *r),
{
    proof {
        lemma_row_order_antisymmetric(*l, *r);
    }
    let s = state_order_exec(&l.state, &r.state);
    if s != 0 {
        return s;
    }
    let t = compare_chars(&sort_label_exec(l), &sort_label_exec(r));
    if t != 0 {
        return t;
    }
    compare_chars(&chars_of(l.id.as_str()), &chars_of(r.id.as_str()))
}

/// The order of two states, as `priority_state_cmp` gives it.
pub fn priority_state_cmp(left: &PriorityState, right: &PriorityState) -> (res: Ordering)
    ensures
        ord_num(res) == state_order(*left, *right),
{
    ord_from(state_order_exec(left, right))
}

/// The ranking order of two rows.
pub fn priority_row_cmp(left: &PriorityRow, right: &PriorityRow) -> (res: Ordering)
    ensures
        ord_num(res) == row_order(*left, *right),
{
    proof {
        lemma_row_order_antisymmetric(*left, *right);
    }
    ord_from(row_order_exec(left, right))
}

/// Whether rows are in ranking order.
pub open spec fn ranked(rows: Seq<PriorityRow>) -> bool {
    forall|i: int, j: int| 0 <= i < j < rows.len() ==> row_order(#[trigger] rows[i], #[trigger] rows[j]) <= 0
}

/// Sorts rows into ranking order (stably, by insertion).
pub fn sort_priority_rows(rows: &mut Vec<PriorityRow>)
    ensures
        ranked(final(rows)@),
        final(rows)@.to_multiset() == old(rows)@.to_multiset(),
{
    let n = rows.len();
    let mut i: usize = 1;
    proof {
        assert(rows@.to_multiset() == old(rows)@.to_multiset());
    }
    if n == 0 {
        return;
    }
    while i < n
        invariant
            1 <= i <= n,
            n == rows.len(),
            ranked(rows@.take(i as int)),
            rows@.to_multiset() == old(rows)@.to_multiset(),
        decreases n - i,
    {
        let mut j: usize = i;
        proof {
            assert forall|a: int, b: int|
                0 <= a < b <= i && a != j && b != j implies row_order(
                    #[trigger] rows@[a],
                    #[trigger] rows@[b],
                ) <= 0 by {
                assert(rows@.take(i as int)[a] == rows@[a]);
                assert(rows@.take(i as int)[b] == rows@[b]);
            }
        }
        while j > 0 && row_order_exec(&rows[j - 1], &rows[j]) > 0
            invariant
                0 <= j <= i < n,
                n == rows.len(),
                rows@.to_multiset() == old(rows)@.to_multiset(),
                forall|a: int, b: int|
                    0 <= a < b <= i && a != j && b != j ==> row_order(
                        #[trigger] rows@[a],
                        #[trigger] rows@[b],
                    ) <= 0,
                forall|b: int| j < b <= i ==> row_order(rows@[j as int], #[trigger] rows@[b]) < 0,
            decreases j,
        {
            let ghost before = rows@;
            let a = rows.remove(j - 1);
            rows.insert(j, a);
            proof {
                assert(rows@ =~= before.update(j - 1, before[j as int]).update(
                    j as int,
                    before[j - 1],
                ));
                lemma_swap_multiset(before, j - 1, j as int);
                lemma_row_order_antisymmetric(before[j - 1], before[j as int]);
                assert forall|a: int, b: int|
                    0 <= a < b <= i && a != j - 1 && b != j - 1 implies row_order(
                        #[trigger] rows@[a],
                        #[trigger] rows@[b],
                    ) <= 0 by {
                    let oa = if a == j {
                        j - 1
                    } else {
                        a
                    };
                    let ob = if b == j {
                        j - 1
                    } else {
                        b
                    };
                    assert(rows@[a] == before[oa]);
                    assert(rows@[b] == before[ob]);
                    assert(row_order(before[oa], before[ob]) <= 0);
                }
                assert forall|b: int| j - 1 < b <= i implies row_order(
                    rows@[j - 1],
                    #[trigger] rows@[b],
                ) < 0 by {
                    if b != j {
                        assert(rows@[b] == before[b]);
                        assert(row_order(before[j as int], before[b]) < 0);
                    }
                }
            }
            j = j - 1;
        }
        proof {
            assert forall|a: int, b: int| 0 <= a < b < i + 1 implies row_order(
                #[trigger] rows@.take(i + 1)[a],
                #[trigger] rows@.take(i + 1)[b],
            ) <= 0 by {
                assert(rows@.take(i + 1)[a] == rows@[a]);
                assert(rows@.take(i + 1)[b] == rows@[b]);
                if b == j && a < j - 1 {
                    assert(row_order(rows@[a], rows@[j - 1]) <= 0);
                    lemma_row_order_transitive(rows@[a], rows@[j - 1], rows@[j as int]);
                }
            }
        }
        i = i + 1;
    }
    proof {
        assert(rows@.take(n as int) =~= rows@);
    }
}

proof fn lemma_swap_multiset(s: Seq<PriorityRow>, a: int, b: int)
    requires
        0 <= a < s.len(),
        0 <= b < s.len(),
        a != b,
    ensures
        s.update(a, s[b]).update(b, s[a]).to_multiset() == s.to_multiset(),
{
    broadcast use vstd::multiset::group_multiset_axioms, vstd::seq_lib::group_to_multiset_ensures;

    let t = s.update(a, s[b]);
    vstd::seq_lib::to_multiset_update(s, a, s[b]);
    vstd::seq_lib::to_multiset_update(t, b, s[a]);
    assert(t.update(b, s[a]).to_multiset() =~= s.to_multiset());
}

// ---------------------------------------------------------------------------
// The recommended row
// ---------------------------------------------------------------------------

/// Whether a row can be recommended: a candidate whose usage is ready.
pub open spec fn recommendable(row: PriorityRow) -> bool {
    row.candidate && row.state is Ready
}

/// The first row that can be recommended, by position.
pub fn best_ready_row(rows: &[PriorityRow]) -> (res: Option<usize>)
    ensures
        match res {
            Some(i) => i < rows.len() && recommendable(rows@[i as int]) && forall|j: int|
                0 <= j < i ==> !recommendable(#[trigger] rows@[j]),
            None => forall|j: int| 0 <= j < rows.len() ==> !recommendable(#[trigger] rows@[j]),
        },
{
    let mut i: usize = 0;
    while i < rows.len()
        invariant
            i <= rows.len(),
            forall|j: int| 0 <= j < i ==> !recommendable(#[trigger] rows@[j]),
        decreases rows.len() - i,
    {
        if rows[i].candidate && matches!(rows[i].state, PriorityState::Ready(_)) {
            return Some(i);
        }
        i = i + 1;
    }
    None
}

/// In a ranked list, the recommended row ranks at or above every other row
/// that could be recommended, and it is never a reserved (non-candidate) row.
pub proof fn lemma_best_ready_row_is_best(rows: Seq<PriorityRow>, i: int)
    requires
        ranked(rows),
        0 <= i < rows.len(),
        recommendable(rows[i]),
        forall|j: int| 0 <= j < i ==> !recommendable(#[trigger] rows[j]),
    ensures
        rows[i].candidate,
        forall|j: int|
            0 <= j < rows.len() && recommendable(#[trigger] rows[j]) ==> row_order(rows[i], rows[j])
                <= 0,
{
    assert forall|j: int| 0 <= j < rows.len() && recommendable(#[trigger] rows[j]) implies row_order(
        rows[i],
        rows[j],
    ) <= 0 by {
        if j == i {
            lemma_row_order_antisymmetric(rows[i], rows[i]);
        } else {
            assert(i < j);
        }
    }
}

// ---------------------------------------------------------------------------
// The state of a profile
// ---------------------------------------------------------------------------

/// One usage window as the usage endpoint reported it, with the quota left
/// already rounded to a whole percent.
#[derive(Clone, Debug)]
pub struct UsageWindowInfo {
    pub left_percent: i64,
    pub reset_at: i64,
    pub reset_at_relative: Option<String>,
}

/// The 5-hour and weekly windows of a profile's usage.
#[derive(Clone, Debug)]
pub struct UsageWindows {
    pub five_hour: Option<UsageWindowInfo>,
    pub weekly: Option<UsageWindowInfo>,
}

/// Why usage is not fetched for a login at all: an API-key login or the free
/// plan; `None` where it is fetched.
pub open spec fn precheck_reason(t: Tokens) -> Option<Seq<char>> {
    if is_api_key_tokens(t) {
        Some("Usage unavailable for API key login"@)
    } else if crate::auth::email_and_plan(t).1 matches Some(p) && crate::text::eq_ignore_case(
        p,
        "free"@,
    ) {
        Some("Usage unavailable for free plan"@)
    } else {
        None
    }
}

/// The state of a login whose usage is not fetched, or `None` where it is.
pub fn usage_precheck(tokens: &Tokens) -> (res: Option<PriorityState>)
    ensures
        match precheck_reason(*tokens) {
            Some(r) => res matches Some(PriorityState::Unavailable(m)) && m@ == r,
            None => res is None,
        },
{
    if crate::auth::is_api_key_profile(tokens) {
        return Some(PriorityState::Unavailable(owned("Usage unavailable for API key login")));
    }
    let (_email, plan) = crate::auth::extract_email_and_plan(tokens);
    let free = match &plan {
        Some(p) => crate::auth::is_free_plan(Some(p.as_str())),
        None => false,
    };
    proof {
        reveal_strlit("free");
    }
    assert(seq!['f', 'r', 'e', 'e'] =~= "free"@);
    if free {
        return Some(PriorityState::Unavailable(owned("Usage unavailable for free plan")));
    }
    None
}

/// The reset text of a window: the relative reset time, trimmed, where it is
/// not empty.
pub open spec fn reset_remaining(w: Option<UsageWindowInfo>) -> Option<Seq<char>> {
    match w {
        Some(info) => match info.reset_at_relative {
            Some(r) => non_empty(Some(trim_seq(r@))),
            None => None,
        },
        None => None,
    }
}

fn reset_remaining_exec(w: &Option<UsageWindowInfo>) -> (res: Option<String>)
    ensures
        opt_seq(res) == reset_remaining(*w),
{
    match w {
        Some(info) => match &info.reset_at_relative {
            Some(r) => {
                let t = crate::text::trim_str(r.as_str());
                if t.as_str().is_empty() {
                    None
                } else {
                    Some(t)
                }
            },
            None => None,
        },
        None => None,
    }
}

/// The state of a profile from the outcome of fetching its usage: the error,
/// a missing window, or the usage with its tier and score.
pub fn priority_state_from_limits(limits: Result<UsageWindows, String>) -> (res: PriorityState)
    requires
        limits matches Ok(l) ==> (l.five_hour matches Some(f) && l.weekly matches Some(w)
            ==> score_of(f.left_percent as int, w.left_percent as int) <= i64::MAX),
    ensures
        match limits {
            Err(e) => res == PriorityState::Unavailable(e),
            Ok(l) => match (l.five_hour, l.weekly) {
                (None, _) => res matches PriorityState::Unavailable(m) && m@
                    == "Missing 5h usage window"@,
                (Some(_), None) => res matches PriorityState::Unavailable(m) && m@
                    == "Missing 7d usage window"@,
                (Some(f), Some(w)) => res matches PriorityState::Ready(u) && {
                    &&& u.five_hour_left == f.left_percent
                    &&& u.seven_day_left == w.left_percent
                    &&& opt_seq(u.five_hour_reset) == reset_remaining(l.five_hour)
                    &&& opt_seq(u.seven_day_reset) == reset_remaining(l.weekly)
                    &&& u.tier == tier_of(f.left_percent as int, w.left_percent as int)
                    &&& u.score == score_of(f.left_percent as int, w.left_percent as int)
                },
            },
        },
{
    let l = match limits {
        Ok(l) => l,
        Err(e) => return PriorityState::Unavailable(e),
    };
    let five = match &l.five_hour {
        Some(f) => f.left_percent,
        None => return PriorityState::Unavailable(owned("Missing 5h usage window")),
    };
    let seven = match &l.weekly {
        Some(w) => w.left_percent,
        None => return PriorityState::Unavailable(owned("Missing 7d usage window")),
    };
    let five_reset = reset_remaining_exec(&l.five_hour);
    let seven_reset = reset_remaining_exec(&l.weekly);
    PriorityState::Ready(priority_usage(five, seven, five_reset, seven_reset))
}

/// Whether the login has a non-empty refresh token.
pub fn has_refresh_token(tokens: &Tokens) -> (res: bool)
    ensures
        res == (non_empty(opt_seq(tokens.refresh_token)) is Some),
{
    match &tokens.refresh_token {
        Some(r) => !r.as_str().is_empty(),
        None => false,
    }
}

/// Whether the tokens are refreshed before usage is fetched: a login that is
/// not an API key, can be refreshed, and lacks an access token or account id.
pub fn should_refresh_before_usage(tokens: &Tokens) -> (res: bool)
    ensures
        res == (!is_api_key_tokens(*tokens) && non_empty(opt_seq(tokens.refresh_token)) is Some
            && (tokens.access_token is None || crate::auth::account_id_of(*tokens) is None)),
{
    !crate::auth::is_api_key_profile(tokens) && has_refresh_token(tokens) && (
    tokens.access_token.is_none() || crate::auth::token_account_id(tokens).is_none())
}

/// Whether a failed usage request is tried again after a token refresh: only
/// on HTTP 401, for a login that can be refreshed and whose file is known.
pub fn retry_usage_after_refresh(status: Option<u16>, tokens: &Tokens, has_path: bool) -> (res: bool)
    ensures
        res == (status == Some(401u16) && non_empty(opt_seq(tokens.refresh_token)) is Some
            && has_path),
{
    match status {
        Some(code) => code == 401 && has_refresh_token(tokens) && has_path,
        None => false,
    }
}

} // verus!
