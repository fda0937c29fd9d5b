//! The order of `list --usage`: saved profiles with usage data first, then
//! usable ones, the ones with the most quota left, the ones that reset
//! soonest, the most recently used, and by id.
use crate::auth::{
    email_and_plan, extract_email_and_plan, is_api_key_profile, is_api_key_tokens, opt_seq,
    token_account_id, Tokens,
};
use crate::priority::{ord_int, then_ord};
use crate::profile_store::ProfileIndexEntry;
use crate::text::{compare_str, lemma_lex_order_antisym, lemma_lex_order_trans, lex_order};
use vstd::prelude::*;

verus! {

/// What the usage of a profile says about its place in the list.
#[derive(Debug, Clone, Copy, PartialEq, Eq, Structural)]
pub struct UsageSortKey {
    pub five_hour_left: Option<i64>,
    pub secondary_left: Option<i64>,
    pub reset_at: Option<i64>,
    pub usable: bool,
}

/// The key of a profile without usage data.
pub open spec fn no_usage_key() -> UsageSortKey {
    UsageSortKey { five_hour_left: None, secondary_left: None, reset_at: None, usable: false }
}

impl UsageSortKey {
    /// The key of a profile without usage data.
    pub fn none() -> (res: Self)
        ensures
            res == no_usage_key(),
    {
        UsageSortKey { five_hour_left: None, secondary_left: None, reset_at: None, usable: false }
    }
}

/// The key for the quota left in the 5-hour and secondary windows (in whole
/// percent) and their reset times: usable where both have quota left (a
/// missing secondary window counts as none left); the reset time is that of
/// the spent window (the later one where both are spent).
pub open spec fn sort_key_of(
    five: i64,
    secondary: Option<i64>,
    primary_reset: Option<i64>,
    secondary_reset: Option<i64>,
) -> UsageSortKey {
    let sec = match secondary {
        Some(s) => s,
        None => 0,
    };
    let reset = if five <= 0 && sec <= 0 {
        match (primary_reset, secondary_reset) {
            (Some(p), Some(s)) => Some(if p >= s {
                p
            } else {
                s
            }),
            (Some(p), None) => Some(p),
            (None, Some(s)) => Some(s),
            (None, None) => None,
        }
    } else if five <= 0 {
        primary_reset
    } else if sec <= 0 {
        secondary_reset
    } else {
        None
    };
    UsageSortKey {
        five_hour_left: Some(five),
        secondary_left: secondary,
        reset_at: reset,
        usable: five > 0 && sec > 0,
    }
}

/// The key for a profile's usage; none without a 5-hour window.
pub fn usage_sort_key(
    five: Option<i64>,
    secondary: Option<i64>,
    primary_reset: Option<i64>,
    secondary_reset: Option<i64>,
) -> (res: Option<UsageSortKey>)
    ensures
        match five {
            Some(f) => res == Some(sort_key_of(f, secondary, primary_reset, secondary_reset)),
            None => res is None,
        },
{
    let f = match five {
        Some(f) => f,
        None => return None,
    };
    let sec = match secondary {
        Some(s) => s,
        None => 0,
    };
    let reset = if f <= 0 && sec <= 0 {
        match (primary_reset, secondary_reset) {
            (Some(p), Some(s)) => Some(
                if p >= s {
                    p
                } else {
                    s
                },
            ),
            (Some(p), None) => Some(p),
            (None, Some(s)) => Some(s),
            (None, None) => None,
        }
    } else if f <= 0 {
        primary_reset
    } else if sec <= 0 {
        secondary_reset
    } else {
        None
    };
    Some(
        UsageSortKey {
            five_hour_left: Some(f),
            secondary_left: secondary,
            reset_at: reset,
            usable: f > 0 && sec > 0,
        },
    )
}

/// Whether a profile is an API-key login: by its login where it could be
/// read, else by its index entry.
pub open spec fn api_key_profile(tokens: Option<Tokens>, entry: Option<ProfileIndexEntry>) -> bool {
    match tokens {
        Some(t) => is_api_key_tokens(t),
        None => match entry {
            Some(e) => e.is_api_key,
            None => false,
        },
    }
}

/// The plan of a profile for sorting: from its login where it names one,
/// else from its index entry.
pub open spec fn plan_for_sort(tokens: Option<Tokens>, entry: Option<ProfileIndexEntry>) -> Option<
    Seq<char>,
> {
    let from_tokens = match tokens {
        Some(t) => email_and_plan(t).1,
        None => None,
    };
    if from_tokens is Some {
        from_tokens
    } else {
        match entry {
            Some(e) => opt_seq(e.plan),
            None => None,
        }
    }
}

/// The access token and account id to fetch a profile's usage with, for
/// sorting: none for an API-key login, a free plan, an unreadable login, or
/// one without them.
pub open spec fn sort_fetch_target(tokens: Option<Tokens>, entry: Option<ProfileIndexEntry>) -> Option<
    (Seq<char>, Seq<char>),
> {
    if api_key_profile(tokens, entry) || crate::listing::free_plan(plan_for_sort(tokens, entry)) {
        None
    } else {
        match tokens {
            Some(t) => match (opt_seq(t.access_token), crate::auth::account_id_of(t)) {
                (Some(a), Some(id)) => Some((a, id)),
                _ => None,
            },
            None => None,
        }
    }
}

/// The access token and account id to fetch a profile's usage with, for
/// sorting.
pub fn usage_fetch_target(tokens: Option<&Tokens>, entry: Option<&ProfileIndexEntry>) -> (res: Option<
    (String, String),
>)
    ensures
        ({
            let t = match tokens {
                Some(t) => Some(*t),
                None => None,
            };
            let e = match entry {
                Some(e) => Some(*e),
                None => None,
            };
            match sort_fetch_target(t, e) {
                Some((a, id)) => res matches Some((ra, rid)) && ra@ == a && rid@ == id,
                None => res is None,
            }
        }),
{
    let api_key = match tokens {
        Some(t) => is_api_key_profile(t),
        None => match entry {
            Some(e) => e.is_api_key,
            None => false,
        },
    };
    if api_key {
        return None;
    }
    let from_tokens = match tokens {
        Some(t) => extract_email_and_plan(t).1,
        None => None,
    };
    let plan = match from_tokens {
        Some(p) => Some(p),
        None => match entry {
            Some(e) => e.plan.clone(),
            None => None,
        },
    };
    let free = crate::auth::is_free_plan(
        match &plan {
            Some(p) => Some(p.as_str()),
            None => None,
        },
    );
    if free {
        return None;
    }
    let t = match tokens {
        Some(t) => t,
        None => return None,
    };
    let access = match &t.access_token {
        Some(a) => a.clone(),
        None => return None,
    };
    let account = match token_account_id(t) {
        Some(a) => crate::text::owned(a),
        None => return None,
    };
    Some((access, account))
}

/// A saved profile being ordered: its id, its last-used time, and its key.
#[derive(Debug, Clone, PartialEq, Eq)]
pub struct UsageOrderItem {
    pub id: String,
    pub last_used: u64,
    pub key: UsageSortKey,
}

/// The ranks a profile is ordered by, in turn (smaller first): usage data
/// or not; usable or not; for usable ones the 5-hour and secondary quota
/// left (more first, a missing window as -1), for the others the reset
/// time (sooner first, none last); the last-used time (later first).
pub open spec fn usage_rank(it: UsageOrderItem) -> (int, int, int, int, int) {
    let k = it.key;
    let has: int = if k.five_hour_left is Some {
        0
    } else {
        1
    };
    let u: int = if k.usable {
        0
    } else {
        1
    };
    let five: int = match k.five_hour_left {
        Some(f) => f as int,
        None => -1,
    };
    let sec: int = match k.secondary_left {
        Some(s) => s as int,
        None => -1,
    };
    let reset: int = match k.reset_at {
        Some(r) => r as int,
        None => i64::MAX as int,
    };
    if k.usable {
        (has, u, -five, -sec, -(it.last_used as int))
    } else {
        (has, u, reset, 0, -(it.last_used as int))
    }
}

/// The order of two profiles: by their ranks in turn, then by id.
pub open spec fn usage_order(a: UsageOrderItem, b: UsageOrderItem) -> int {
    let (a0, a1, a2, a3, a4) = usage_rank(a);
    let (b0, b1, b2, b3, b4) = usage_rank(b);
    then_ord(
        ord_int(a0, b0),
        then_ord(
            ord_int(a1, b1),
            then_ord(
                ord_int(a2, b2),
                then_ord(ord_int(a3, b3), then_ord(ord_int(a4, b4), lex_order(a.id@, b.id@))),
            ),
        ),
    )
}

/// The order of profiles is antisymmetric, and equal only for equal ids.
pub proof fn lemma_usage_order_antisymmetric(a: UsageOrderItem, b: UsageOrderItem)
    ensures
        usage_order(a, b) == -usage_order(b, a),
        -1 <= usage_order(a, b) <= 1,
        usage_order(a, b) == 0 ==> a.id@ == b.id@,
{
    lemma_lex_order_antisym(a.id@, b.id@);
}

/// Among profiles with the same usage key, the more recently used one comes
/// first.
pub proof fn lemma_usage_order_recent_first(a: UsageOrderItem, b: UsageOrderItem)
    requires
        a.key == b.key,
        a.last_used > b.last_used,
    ensures
        usage_order(a, b) == -1,
        usage_order(b, a) == 1,
{
}

/// In list order, of two profiles with the same usage key, the earlier one
/// was used at least as recently as the later one.
pub proof fn lemma_usage_sorted_recent_first(s: Seq<UsageOrderItem>, i: int, j: int)
    requires
        usage_sorted(s),
        0 <= i < j < s.len(),
        s[i].key == s[j].key,
    ensures
        s[i].last_used >= s[j].last_used,
{
    if s[i].last_used < s[j].last_used {
        lemma_usage_order_recent_first(s[j], s[i]);
        assert(usage_order(s[i], s[j]) <= 0);
    }
}

/// The order of profiles is transitive.
pub proof fn lemma_usage_order_transitive(a: UsageOrderItem, b: UsageOrderItem, c: UsageOrderItem)
    requires
        usage_order(a, b) <= 0,
        usage_order(b, c) <= 0,
    ensures
        usage_order(a, c) <= 0,
{
    lemma_lex_order_antisym(a.id@, b.id@);
    lemma_lex_order_antisym(b.id@, c.id@);
    lemma_lex_order_antisym(a.id@, c.id@);
    if lex_order(a.id@, b.id@) <= 0 && lex_order(b.id@, c.id@) <= 0 {
        lemma_lex_order_trans(a.id@, b.id@, c.id@);
    }
}

fn three_way_i64(a: i64, b: i64) -> (res: i8)
    ensures
        res == ord_int(a as int, b as int),
{
    if a < b {
        -1
    } else if a > b {
        1
    } else {
        0
    }
}

fn three_way_u64(a: u64, b: u64) -> (res: i8)
    ensures
        res == ord_int(a as int, b as int),
{
    if a < b {
        -1
    } else if a > b {
        1
    } else {
        0
    }
}

/// The order of two profiles, step by step as the list compares them.
pub fn usage_order_exec(left: &UsageOrderItem, right: &UsageOrderItem) -> (res: i8)
    ensures
        res == usage_order(*left, *right),
        left.key == right.key && left.last_used > right.last_used ==> res < 0,
        left.key == right.key && left.last_used < right.last_used ==> res > 0,
{
    proof {
        if left.key == right.key && left.last_used != right.last_used {
            if left.last_used > right.last_used {
                lemma_usage_order_recent_first(*left, *right);
            } else {
                lemma_usage_order_recent_first(*right, *left);
            }
        }
    }
    let l = left.key;
    let r = right.key;
    let lh = l.five_hour_left.is_some();
    let rh = r.five_hour_left.is_some();
    if lh != rh {
        return if lh {
            -1
        } else {
            1
        };
    }
    if l.usable != r.usable {
        return if l.usable {
            -1
        } else {
            1
        };
    }
    if l.usable && r.usable {
        let lf = match l.five_hour_left {
            Some(f) => f,
            None => -1,
        };
        let rf = match r.five_hour_left {
            Some(f) => f,
            None => -1,
        };
        let c = three_way_i64(rf, lf);
        if c != 0 {
            return c;
        }
        let ls = match l.secondary_left {
            Some(s) => s,
            None => -1,
        };
        let rs = match r.secondary_left {
            Some(s) => s,
            None => -1,
        };
        let c = three_way_i64(rs, ls);
        if c != 0 {
            return c;
        }
    } else if !l.usable && !r.usable {
        let lr = match l.reset_at {
            Some(x) => x,
            None => i64::MAX,
        };
        let rr = match r.reset_at {
            Some(x) => x,
            None => i64::MAX,
        };
        let c = three_way_i64(lr, rr);
        if c != 0 {
            return c;
        }
    }
    let c = three_way_u64(right.last_used, left.last_used);
    if c != 0 {
        return c;
    }
    compare_str(left.id.as_str(), right.id.as_str())
}

/// Whether profiles are in list order.
pub open spec fn usage_sorted(s: Seq<UsageOrderItem>) -> bool {
    forall|i: int, j: int| 0 <= i < j < s.len() ==> usage_order(#[trigger] s[i], #[trigger] s[j]) <= 0
}

proof fn lemma_swap_multiset(s: Seq<UsageOrderItem>, a: int, b: int)
    requires
        0 <= a < s.len(),
        0 <= b < s.len(),
        a != b,
    ensures
        s.update(a, s[b]).update(b, s[a]).to_multiset() == s.to_multiset(),
{
    broadcast use vstd::multiset::group_multiset_axioms, vstd::seq_lib::group_to_multiset_ensures;

    let t = s.update(a, s[b]);
    vstd::seq_lib::to_multiset_update(s, a, s[b]);
    vstd::seq_lib::to_multiset_update(t, b, s[a]);
    assert(t.update(b, s[a]).to_multiset() =~= s.to_multiset());
}

/// Sorts profiles into list order (by insertion).
pub fn sort_by_usage(items: &mut Vec<UsageOrderItem>)
    ensures
        usage_sorted(final(items)@),
        final(items)@.to_multiset() == old(items)@.to_multiset(),
        forall|i: int, j: int|
            0 <= i < j < final(items)@.len() && (#[trigger] final(items)@[i]).key
                == (#[trigger] final(items)@[j]).key ==> final(items)@[i].last_used
                >= final(items)@[j].last_used,
{
    proof {
        assert forall|s: Seq<UsageOrderItem>, i: int, j: int|
            usage_sorted(s) && 0 <= i < j < s.len() && (#[trigger] s[i]).key == (#[trigger] s[j]).key
                implies s[i].last_used >= s[j].last_used by {
            lemma_usage_sorted_recent_first(s, i, j);
        }
    }
    let n = items.len();
    if n == 0 {
        return;
    }
    let mut i: usize = 1;
    while i < n
        invariant
            1 <= i <= n,
            n == items.len(),
            usage_sorted(items@.take(i as int)),
            items@.to_multiset() == old(items)@.to_multiset(),
        decreases n - i,
    {
        let mut j: usize = i;
        proof {
            assert forall|a: int, b: int|
                0 <= a < b <= i && a != j && b != j implies usage_order(
                    #[trigger] items@[a],
                    #[trigger] items@[b],
                ) <= 0 by {
                assert(items@.take(i as int)[a] == items@[a]);
                assert(items@.take(i as int)[b] == items@[b]);
            }
        }
        while j > 0 && usage_order_exec(&items[j - 1], &items[j]) > 0
            invariant
                0 <= j <= i < n,
                n == items.len(),
                items@.to_multiset() == old(items)@.to_multiset(),
                forall|a: int, b: int|
                    0 <= a < b <= i && a != j && b != j ==> usage_order(
                        #[trigger] items@[a],
                        #[trigger] items@[b],
                    ) <= 0,
                forall|b: int| j < b <= i ==> usage_order(items@[j as int], #[trigger] items@[b]) < 0,
            decreases j,
        {
            let ghost before = items@;
            let a = items.remove(j - 1);
            items.insert(j, a);
            proof {
                assert(items@ =~= before.update(j - 1, before[j as int]).update(
                    j as int,
                    before[j - 1],
                ));
                lemma_swap_multiset(before, j - 1, j as int);
                lemma_usage_order_antisymmetric(before[j - 1], before[j as int]);
                assert forall|a: int, b: int|
                    0 <= a < b <= i && a != j - 1 && b != j - 1 implies usage_order(
                        #[trigger] items@[a],
                        #[trigger] items@[b],
                    ) <= 0 by {
                    let oa = if a == j {
                        j - 1
                    } else {
                        a
                    };
                    let ob = if b == j {
                        j - 1
                    } else {
                        b
                    };
                    assert(items@[a] == before[oa]);
                    assert(items@[b] == before[ob]);
                    assert(usage_order(before[oa], before[ob]) <= 0);
                }
                assert forall|b: int| j - 1 < b <= i implies usage_order(
                    items@[j - 1],
                    #[trigger] items@[b],
                ) < 0 by {
                    if b != j {
                        assert(items@[b] == before[b]);
                        assert(usage_order(before[j as int], before[b]) < 0);
                    }
                }
            }
            j = j - 1;
        }
        proof {
            assert forall|a: int, b: int| 0 <= a < b < i + 1 implies usage_order(
                #[trigger] items@.take(i + 1)[a],
                #[trigger] items@.take(i + 1)[b],
            ) <= 0 by {
                assert(items@.take(i + 1)[a] == items@[a]);
                assert(items@.take(i + 1)[b] == items@[b]);
                if b == j && a < j - 1 {
                    assert(usage_order(items@[a], items@[j - 1]) <= 0);
                    lemma_usage_order_transitive(items@[a], items@[j - 1], items@[j as int]);
                }
            }
        }
        i = i + 1;
    }
    proof {
        assert(items@.take(n as int) =~= items@);
    }
}

/// The profiles being ordered, from saved profiles and their keys (a
/// profile without a key has none).
pub open spec fn order_items(entries: Seq<(String, u64)>, keys: Seq<Option<UsageSortKey>>) -> Seq<
    UsageOrderItem,
> {
    Seq::new(
        entries.len(),
        |i: int|
            UsageOrderItem {
                id: entries[i].0,
                last_used: entries[i].1,
                key: match keys[i] {
                    Some(k) => k,
                    None => no_usage_key(),
                },
            },
    )
}

/// The saved profiles with their keys, in list order.
pub fn ordered_profiles_by_usage(entries: Vec<(String, u64)>, keys: &[Option<UsageSortKey>]) -> (res:
    Vec<UsageOrderItem>)
    requires
        keys.len() == entries.len(),
    ensures
        usage_sorted(res@),
        res@.to_multiset() == order_items(entries@, keys@).to_multiset(),
        forall|i: int, j: int|
            0 <= i < j < res.len() && (#[trigger] res@[i]).key == (#[trigger] res@[j]).key
                ==> res@[i].last_used >= res@[j].last_used,
{
    let ghost target = order_items(entries@, keys@);
    let ghost n = entries.len();
    let mut rest = entries;
    let mut items: Vec<UsageOrderItem> = Vec::new();
    let mut i: usize = 0;
    while rest.len() > 0
        invariant
            i + rest.len() == n,
            n == keys.len(),
            target.len() == n,
            items@.len() == i,
            forall|j: int| 0 <= j < i ==> #[trigger] items@[j] == target[j],
            forall|j: int| 0 <= j < rest.len() ==> #[trigger] rest@[j] == (target[i + j].id,
                target[i + j].last_used),
            forall|j: int| 0 <= j < n ==> (#[trigger] target[j]).key == match keys@[j] {
                Some(k) => k,
                None => no_usage_key(),
            },
        decreases rest.len(),
    {
        let ghost before = rest@;
        let (id, ts) = rest.remove(0);
        proof {
            assert(before[0] == (target[i as int].id, target[i as int].last_used));
            assert forall|j: int| 0 <= j < rest.len() implies #[trigger] rest@[j] == (target[i + 1
                + j].id, target[i + 1 + j].last_used) by {
                assert(rest@[j] == before[j + 1]);
            }
        }
        let key = match keys[i] {
            Some(k) => k,
            None => UsageSortKey::none(),
        };
        items.push(UsageOrderItem { id, last_used: ts, key });
        i = i + 1;
    }
    proof {
        assert(items@ =~= target);
    }
    sort_by_usage(&mut items);
    proof {
        assert forall|i: int, j: int|
            0 <= i < j < items.len() && (#[trigger] items@[i]).key == (#[trigger] items@[j]).key
                implies items@[i].last_used >= items@[j].last_used by {
            lemma_usage_sorted_recent_first(items@, i, j);
        }
    }
    items
}

} // verus!
