//! Profile ids: how a saved login is named, and which saved profile stands
//! for an account.
use vstd::prelude::*;

use crate::auth::{account_id_of, email_and_plan, token_account_id, Tokens};
use crate::text::{ascii_lower, ascii_lower_exec, chars_of, concat, concat3, is_ascii_alnum, owned, push_str, string_of};
use crate::usage::{entries_view, trim_char};

verus! {

/// The character a name character becomes in an id: ASCII letters and digits
/// in lowercase, `@ . - _ +` as they are, anything else `-`.
pub open spec fn id_char(c: char) -> char {
    if is_ascii_alnum(c) {
        ascii_lower(c)
    } else if c == '@' || c == '.' || c == '-' || c == '_' || c == '+' {
        c
    } else {
        '-'
    }
}

/// The characters of a name turned into id characters, with runs of `-`
/// collapsed to one.
pub open spec fn collapsed(s: Seq<char>) -> Seq<char>
    decreases s.len(),
{
    if s.len() == 0 {
        Seq::empty()
    } else {
        let o = collapsed(s.drop_last());
        let n = id_char(s.last());
        if n == '-' && o.len() > 0 && o.last() == '-' {
            o
        } else {
            o.push(n)
        }
    }
}

/// A name as a part of a profile id: id characters, runs of `-` collapsed,
/// and no `-` at either end.
pub open spec fn sanitized(s: Seq<char>) -> Seq<char> {
    trim_char(collapsed(s), '-')
}

/// The characters of a profile id part: ASCII lowercase letters and digits,
/// and `@ . _ + -`.
pub open spec fn id_part_char(c: char) -> bool {
    ('a' <= c && c <= 'z') || ('0' <= c && c <= '9') || c == '@' || c == '.' || c == '_' || c
        == '+' || c == '-'
}

/// The form of a sanitized part: id characters only, no `--`, and no `-`
/// at either end.
pub open spec fn sanitized_form(t: Seq<char>) -> bool {
    &&& forall|i: int| 0 <= i < t.len() ==> id_part_char(#[trigger] t[i])
    &&& forall|i: int| 0 <= i < t.len() - 1 ==> !(#[trigger] t[i] == '-' && t[i + 1] == '-')
    &&& t.len() > 0 ==> t[0] != '-' && t.last() != '-'
}

proof fn lemma_id_char(c: char)
    ensures
        id_part_char(id_char(c)),
        id_part_char(c) ==> id_char(c) == c,
{
    if 'A' <= c && c <= 'Z' {
        assert(65 <= (c as u32) <= 90);
        let l = ((c as u32) + 32) as char;
        assert(97 <= (l as u32) <= 122);
    }
}

/// Collapsing gives id characters with no `--`.
proof fn lemma_collapsed_form(s: Seq<char>)
    ensures
        ({
            let t = collapsed(s);
            &&& forall|i: int| 0 <= i < t.len() ==> id_part_char(#[trigger] t[i])
            &&& forall|i: int| 0 <= i < t.len() - 1 ==> !(#[trigger] t[i] == '-' && t[i + 1] == '-')
        }),
    decreases s.len(),
{
    if s.len() > 0 {
        let o = collapsed(s.drop_last());
        let n = id_char(s.last());
        lemma_collapsed_form(s.drop_last());
        lemma_id_char(s.last());
        if !(n == '-' && o.len() > 0 && o.last() == '-') {
            let t = o.push(n);
            assert forall|i: int| 0 <= i < t.len() implies id_part_char(#[trigger] t[i]) by {
                if i < o.len() {
                    assert(t[i] == o[i]);
                }
            }
            assert forall|i: int| 0 <= i < t.len() - 1 implies !(#[trigger] t[i] == '-' && t[i + 1]
                == '-') by {
                assert(t[i] == o[i]);
                if i + 1 < o.len() {
                    assert(t[i + 1] == o[i + 1]);
                } else {
                    assert(o.last() == o[i]);
                }
            }
        }
    }
}

/// A text in sanitized form collapses to itself.
proof fn lemma_collapsed_fixed(t: Seq<char>)
    requires
        forall|i: int| 0 <= i < t.len() ==> id_part_char(#[trigger] t[i]),
        forall|i: int| 0 <= i < t.len() - 1 ==> !(#[trigger] t[i] == '-' && t[i + 1] == '-'),
    ensures
        collapsed(t) == t,
    decreases t.len(),
{
    if t.len() > 0 {
        let d = t.drop_last();
        assert forall|i: int| 0 <= i < d.len() - 1 implies !(#[trigger] d[i] == '-' && d[i + 1]
            == '-') by {
            assert(d[i] == t[i] && d[i + 1] == t[i + 1]);
        }
        assert forall|i: int| 0 <= i < d.len() implies id_part_char(#[trigger] d[i]) by {
            assert(d[i] == t[i]);
        }
        lemma_collapsed_fixed(d);
        lemma_id_char(t.last());
        assert(t.last() == t[t.len() - 1]);
        if d.len() > 0 {
            assert(d.last() == t[t.len() - 2]);
        }
        assert(d.push(t.last()) =~= t);
    }
}

proof fn lemma_trim_start(s: Seq<char>, c: char) -> (k: int)
    ensures
        0 <= k <= s.len(),
        crate::usage::trim_char_start(s, c) == s.skip(k),
        s.skip(k).len() > 0 ==> s.skip(k)[0] != c,
    decreases s.len(),
{
    if s.len() > 0 && s[0] == c {
        let k = lemma_trim_start(s.drop_first(), c);
        assert(s.drop_first().skip(k) =~= s.skip(k + 1));
        k + 1
    } else {
        assert(s.skip(0) =~= s);
        0
    }
}

proof fn lemma_trim_end(s: Seq<char>, c: char) -> (k: int)
    ensures
        0 <= k <= s.len(),
        crate::usage::trim_char_end(s, c) == s.take(k),
        s.take(k).len() > 0 ==> s.take(k).last() != c,
    decreases s.len(),
{
    if s.len() > 0 && s.last() == c {
        let k = lemma_trim_end(s.drop_last(), c);
        assert(s.drop_last().take(k) =~= s.take(k));
        k
    } else {
        assert(s.take(s.len() as int) =~= s);
        s.len() as int
    }
}

/// A sanitized part is in sanitized form, and sanitizing it again changes
/// nothing.
pub proof fn lemma_sanitized_idempotent(s: Seq<char>)
    ensures
        sanitized_form(sanitized(s)),
        sanitized(sanitized(s)) == sanitized(s),
{
    let c = collapsed(s);
    lemma_collapsed_form(s);
    let a = lemma_trim_start(c, '-');
    let m = c.skip(a);
    let b = lemma_trim_end(m, '-');
    let t = m.take(b);
    assert(sanitized(s) == t);
    assert forall|i: int| 0 <= i < t.len() implies id_part_char(#[trigger] t[i]) by {
        assert(t[i] == c[a + i]);
    }
    assert forall|i: int| 0 <= i < t.len() - 1 implies !(#[trigger] t[i] == '-' && t[i + 1] == '-') by {
        assert(t[i] == c[a + i] && t[i + 1] == c[a + i + 1]);
    }
    if t.len() > 0 {
        assert(t[0] == m[0]);
    }
    assert(sanitized_form(t));
    lemma_collapsed_fixed(t);
    let a2 = lemma_trim_start(t, '-');
    if t.len() > 0 {
        assert(a2 == 0) by {
            if a2 > 0 {
                assert(t.skip(a2 - 1).len() >= 0);
            }
        }
    }
    assert(crate::usage::trim_char_start(t, '-') == t) by {
        if t.len() > 0 {
            assert(t[0] != '-');
        } else {
            assert(t.skip(a2) =~= t);
        }
    }
    let b2 = lemma_trim_end(t, '-');
    assert(crate::usage::trim_char_end(t, '-') == t) by {
        if t.len() > 0 {
            assert(t.last() != '-');
        } else {
            assert(t.take(b2) =~= t);
        }
    }
}

fn id_char_exec(c: char) -> (res: char)
    ensures
        res == id_char(c),
{
    if crate::text::is_ascii_alnum_exec(c) {
        ascii_lower_exec(c)
    } else if c == '@' || c == '.' || c == '-' || c == '_' || c == '+' {
        c
    } else {
        '-'
    }
}

/// A name as a part of a profile id.
pub fn sanitize_part(value: &str) -> (res: String)
    ensures
        res@ == sanitized(value@),
        sanitized_form(res@),
{
    proof {
        lemma_sanitized_idempotent(value@);
    }
    let v = chars_of(value);
    let mut out: Vec<char> = Vec::new();
    let mut last_dash = false;
    let mut i: usize = 0;
    while i < v.len()
        invariant
            i <= v.len(),
            v@ == value@,
            out@ == collapsed(v@.take(i as int)),
            last_dash == (out@.len() > 0 && out@.last() == '-'),
        decreases v.len() - i,
    {
        assert(v@.take(i + 1).drop_last() =~= v@.take(i as int));
        let next = id_char_exec(v[i]);
        if next == '-' {
            if !last_dash {
                out.push(next);
                last_dash = true;
            }
        } else {
            out.push(next);
            last_dash = false;
        }
        i = i + 1;
    }
    assert(v@.take(v.len() as int) =~= v@);
    let t = crate::usage::trim_char_vec(&out, '-');
    string_of(&t)
}

/// A part of an id, or `unknown` where it is empty.
pub open spec fn or_unknown(s: Seq<char>) -> Seq<char> {
    if s.len() == 0 {
        "unknown"@
    } else {
        s
    }
}

/// The base of a profile id: `{email}-{plan}`, each sanitized, `unknown`
/// where nothing is left.
pub fn profile_base(email: &str, plan_label: &str) -> (res: String)
    ensures
        res@ == or_unknown(sanitized(email@)) + "-"@ + or_unknown(sanitized(plan_label@)),
{
    let e = sanitize_part(email);
    let p = sanitize_part(plan_label);
    let e = if e.as_str().is_empty() {
        owned("unknown")
    } else {
        e
    };
    let p = if p.as_str().is_empty() {
        owned("unknown")
    } else {
        p
    };
    concat3(e.as_str(), "-", p.as_str())
}

/// The first six characters of an account id, which tell apart profiles
/// with the same base.
pub fn short_account_suffix(account_id: &str) -> (res: String)
    ensures
        res@ == account_id@.take(if account_id@.len() < 6 {
            account_id@.len() as int
        } else {
            6
        }),
{
    let v = chars_of(account_id);
    let n: usize = if v.len() < 6 {
        v.len()
    } else {
        6
    };
    let t = crate::text::slice_range(&v, 0, n);
    assert(t@ =~= account_id@.take(n as int));
    string_of(&t)
}

/// The id tried at a given attempt for a base: the base itself, then
/// `{base}-{suffix}`, then `{base}-{suffix}-{n}`.
pub fn candidate_id(base: &str, suffix: &str, attempts: u64) -> (res: String)
    ensures
        attempts == 0 ==> res@ == base@,
        attempts == 1 ==> res@ == base@ + "-"@ + suffix@,
        attempts > 1 ==> res@ == base@ + "-"@ + suffix@ + "-"@ + crate::num::dec_seq(attempts as nat),
{
    if attempts == 0 {
        owned(base)
    } else if attempts == 1 {
        concat3(base, "-", suffix)
    } else {
        let mut out = concat3(base, "-", suffix);
        push_str(&mut out, "-");
        push_str(&mut out, crate::num::u64_to_string(attempts).as_str());
        out
    }
}

/// What probing a candidate id decides: take it, or try the next attempt.
#[derive(Debug, Clone, Copy, PartialEq, Eq)]
pub enum IdProbe {
    Use,
    Next(u64),
}

/// Whether a profile file's account is the given one.
pub open spec fn held_by(owner: Option<&str>, account_id: Seq<char>) -> bool {
    match owner {
        Some(o) => o@ == account_id,
        None => false,
    }
}

/// Probing a candidate id while looking for a free one: it is taken where
/// no profile file has it, or where that file holds the same account;
/// otherwise the next attempt follows.
pub fn unique_id_step(attempts: u64, file_exists: bool, owner: Option<&str>, account_id: &str) -> (res: IdProbe)
    requires
        attempts < u64::MAX,
    ensures
        (!file_exists || held_by(owner, account_id@)) ==> res == IdProbe::Use,
        !(!file_exists || held_by(owner, account_id@)) ==> res == IdProbe::Next((attempts + 1) as u64),
{
    if !file_exists {
        return IdProbe::Use;
    }
    match owner {
        Some(o) => if crate::text::str_eq(o, account_id) {
            return IdProbe::Use;
        },
        None => {},
    }
    IdProbe::Next(attempts + 1)
}

/// Whether tokens belong to an account (and, where given, to its email).
pub open spec fn account_matches(t: Tokens, account_id: Seq<char>, email: Option<Seq<char>>) -> bool {
    account_id_of(t) == Some(account_id) && match email {
        Some(e) => email_and_plan(t).0 == Some(e),
        None => true,
    }
}

/// Whether the tokens belong to the account.
pub fn matches_account(tokens: &Tokens, account_id: &str, email: Option<&str>) -> (res: bool)
    ensures
        res == account_matches(
            *tokens,
            account_id@,
            match email {
                Some(e) => Some(e@),
                None => None,
            },
        ),
{
    match token_account_id(tokens) {
        Some(a) => {
            if !crate::text::str_eq(a, account_id) {
                return false;
            }
        },
        None => return false,
    }
    if let Some(expected) = email {
        let (token_email, _plan) = crate::auth::extract_email_and_plan(tokens);
        match token_email {
            Some(e) => crate::text::str_eq(e.as_str(), expected),
            None => false,
        }
    } else {
        true
    }
}

/// The last-used time of an id in a usage map, where it has one.
pub open spec fn usage_of(map: Seq<(Seq<char>, u64)>, id: Seq<char>) -> Option<u64>
    decreases map.len(),
{
    if map.len() == 0 {
        None
    } else if map[0].0 == id {
        Some(map[0].1)
    } else {
        usage_of(map.drop_first(), id)
    }
}

fn usage_of_exec(map: &[(String, u64)], id: &str) -> (res: Option<u64>)
    ensures
        res == usage_of(entries_view(map@), id@),
{
    let mut i: usize = 0;
    assert(entries_view(map@).skip(0) =~= entries_view(map@));
    while i < map.len()
        invariant
            i <= map.len(),
            usage_of(entries_view(map@), id@) == usage_of(entries_view(map@).skip(i as int), id@),
        decreases map.len() - i,
    {
        assert(entries_view(map@).skip(i as int).drop_first() =~= entries_view(map@).skip(i + 1));
        assert(entries_view(map@).skip(i as int)[0] == (map@[i as int].0@, map@[i as int].1));
        if crate::text::str_eq(map[i].0.as_str(), id) {
            return Some(map[i].1);
        }
        i = i + 1;
    }
    None
}

/// Among the first `n` candidates, the one used most recently (the first of
/// equals), among those the usage map knows.
pub open spec fn primary_of(c: Seq<Seq<char>>, map: Seq<(Seq<char>, u64)>, n: int) -> Option<(Seq<char>, u64)>
    decreases n,
{
    if n <= 0 {
        None
    } else {
        let best = primary_of(c, map, n - 1);
        match usage_of(map, c[n - 1]) {
            Some(ts) => match best {
                Some((_id, b)) => if ts > b {
                    Some((c[n - 1], ts))
                } else {
                    best
                },
                None => Some((c[n - 1], ts)),
            },
            None => best,
        }
    }
}

/// The candidate used most recently: of the candidates the usage map knows,
/// the first with the latest time.
pub fn pick_primary(candidates: &[String], usage_map: &[(String, u64)]) -> (res: Option<String>)
    ensures
        match primary_of(crate::usage::strings_view(candidates@), entries_view(usage_map@), candidates.len() as int) {
            Some((id, _ts)) => res matches Some(s) && s@ == id,
            None => res is None,
        },
{
    let ghost c = crate::usage::strings_view(candidates@);
    let mut best: Option<(String, u64)> = None;
    let mut i: usize = 0;
    while i < candidates.len()
        invariant
            i <= candidates.len(),
            c == crate::usage::strings_view(candidates@),
            match primary_of(c, entries_view(usage_map@), i as int) {
                Some((id, ts)) => best matches Some((s, t)) && s@ == id && t == ts,
                None => best is None,
            },
        decreases candidates.len() - i,
    {
        assert(c[i as int] == candidates@[i as int]@);
        match usage_of_exec(usage_map, candidates[i].as_str()) {
            Some(ts) => {
                let better = match &best {
                    Some((_, b)) => ts > *b,
                    None => true,
                };
                if better {
                    best = Some((candidates[i].clone(), ts));
                }
            },
            None => {},
        }
        i = i + 1;
    }
    match best {
        Some((id, _)) => Some(id),
        None => None,
    }
}

/// Whether a last-used time is above 0.
pub open spec fn used_at_some_time(t: Option<u64>) -> bool {
    match t {
        Some(ts) => ts > 0,
        None => false,
    }
}

/// Whether any candidate was used at some time (a last-used time above 0).
pub fn has_usage_signal(candidates: &[String], usage_map: &[(String, u64)]) -> (res: bool)
    ensures
        res == exists|i: int|
            0 <= i < candidates.len() && used_at_some_time(
                #[trigger] usage_of(entries_view(usage_map@), candidates@[i]@),
            ),
{
    let mut i: usize = 0;
    while i < candidates.len()
        invariant
            i <= candidates.len(),
            forall|j: int|
                0 <= j < i ==> !used_at_some_time(
                    #[trigger] usage_of(entries_view(usage_map@), candidates@[j]@),
                ),
        decreases candidates.len() - i,
    {
        match usage_of_exec(usage_map, candidates[i].as_str()) {
            Some(ts) => {
                if ts > 0 {
                    return true;
                }
            },
            None => {},
        }
        i = i + 1;
    }
    false
}

/// The message where a selection needs an interactive terminal.
pub fn require_tty_with(is_tty: bool, action: &str, command_name: &str) -> (res: Result<(), String>)
    ensures
        is_tty ==> res is Ok,
        !is_tty ==> (res matches Err(m) && m@ == "Error: "@ + action@
            + " selection requires a TTY. Run `"@ + command_name@ + " "@ + action@
            + "` interactively."@),
{
    if is_tty {
        return Ok(());
    }
    let mut m = concat("Error: ", action);
    push_str(&mut m, " selection requires a TTY. Run `");
    push_str(&mut m, command_name);
    push_str(&mut m, " ");
    push_str(&mut m, action);
    push_str(&mut m, "` interactively.");
    Err(m)
}

/// The ids of profiles (in order) whose login could be read and belongs to
/// the account (and, where given, to its email).
pub open spec fn matching_ids(
    profiles: Seq<(String, Result<Tokens, String>)>,
    account_id: Seq<char>,
    email: Option<Seq<char>>,
) -> Seq<Seq<char>>
    decreases profiles.len(),
{
    if profiles.len() == 0 {
        Seq::empty()
    } else {
        let prev = matching_ids(profiles.drop_last(), account_id, email);
        let (id, r) = profiles.last();
        match r {
            Ok(t) => if account_matches(t, account_id, email) {
                prev.push(id@)
            } else {
                prev
            },
            Err(_) => prev,
        }
    }
}

/// Texts of strings.
pub open spec fn texts(v: Seq<String>) -> Seq<Seq<char>> {
    Seq::new(v.len(), |i: int| v[i]@)
}

/// The ids of the saved profiles of an account, from the logins read.
pub fn cached_profile_ids(
    tokens_map: &[(String, Result<Tokens, String>)],
    account_id: &str,
    email: Option<&str>,
) -> (res: Vec<String>)
    ensures
        texts(res@) == matching_ids(
            tokens_map@,
            account_id@,
            match email {
                Some(e) => Some(e@),
                None => None,
            },
        ),
{
    let ghost em = match email {
        Some(e) => Some(e@),
        None => None,
    };
    let mut out: Vec<String> = Vec::new();
    let mut i: usize = 0;
    while i < tokens_map.len()
        invariant
            i <= tokens_map.len(),
            em == (match email {
                Some(e) => Some(e@),
                None => None,
            }),
            texts(out@) == matching_ids(tokens_map@.take(i as int), account_id@, em),
        decreases tokens_map.len() - i,
    {
        assert(tokens_map@.take(i + 1).drop_last() =~= tokens_map@.take(i as int));
        let (id, r) = &tokens_map[i];
        match r {
            Ok(t) => {
                if matches_account(t, account_id, email) {
                    let ghost before = texts(out@);
                    out.push(id.clone());
                    assert(texts(out@) =~= before.push(id@));
                }
            },
            Err(_) => {},
        }
        i = i + 1;
    }
    assert(tokens_map@.take(tokens_map.len() as int) =~= tokens_map@);
    out
}

/// The ids of the profile files of an account: the file stem of each file
/// (in order) whose login could be read and belongs to the account.
pub open spec fn matching_file_ids(
    files: Seq<(String, Result<Tokens, String>)>,
    account_id: Seq<char>,
    email: Option<Seq<char>>,
) -> Seq<Seq<char>>
    decreases files.len(),
{
    if files.len() == 0 {
        Seq::empty()
    } else {
        let prev = matching_file_ids(files.drop_last(), account_id, email);
        let (path, r) = files.last();
        match r {
            Ok(t) => if account_matches(t, account_id, email) {
                match crate::profile_store::profile_id_of(path@) {
                    Some(stem) => prev.push(stem),
                    None => prev,
                }
            } else {
                prev
            },
            Err(_) => prev,
        }
    }
}

/// The ids of the profile files of an account, from the profile files and
/// their logins as read.
pub fn scan_profile_ids(
    files: &[(String, Result<Tokens, String>)],
    account_id: &str,
    email: Option<&str>,
) -> (res: Vec<String>)
    ensures
        texts(res@) == matching_file_ids(
            files@,
            account_id@,
            match email {
                Some(e) => Some(e@),
                None => None,
            },
        ),
{
    let ghost em = match email {
        Some(e) => Some(e@),
        None => None,
    };
    let mut out: Vec<String> = Vec::new();
    let mut i: usize = 0;
    while i < files.len()
        invariant
            i <= files.len(),
            em == (match email {
                Some(e) => Some(e@),
                None => None,
            }),
            texts(out@) == matching_file_ids(files@.take(i as int), account_id@, em),
        decreases files.len() - i,
    {
        assert(files@.take(i + 1).drop_last() =~= files@.take(i as int));
        let (path, r) = &files[i];
        match r {
            Ok(t) => {
                if matches_account(t, account_id, email) {
                    match crate::profile_store::profile_id_from_path(path.as_str()) {
                        Some(stem) => {
                            let ghost before = texts(out@);
                            let ghost sv = stem@;
                            out.push(stem);
                            assert(texts(out@) =~= before.push(sv));
                        },
                        None => {},
                    }
                }
            },
            Err(_) => {},
        }
        i = i + 1;
    }
    assert(files@.take(files.len() as int) =~= files@);
    out
}

/// Which id a save uses.
#[derive(Debug, Clone, PartialEq, Eq)]
pub enum SaveIdChoice {
    /// Save under this id.
    Use(String),
    /// Rename this profile to the desired base first.
    Rename(String),
}

/// Whether a candidate other than the desired id is the primary profile of
/// an account with usage: then it is renamed, else the desired id is used.
pub open spec fn save_choice_of(
    desired: Seq<char>,
    candidates: Seq<Seq<char>>,
    map: Seq<(Seq<char>, u64)>,
) -> Result<Seq<char>, Seq<char>> {
    let signal = exists|i: int|
        0 <= i < candidates.len() && used_at_some_time(#[trigger] usage_of(map, candidates[i]));
    match primary_of(candidates, map, candidates.len() as int) {
        Some((p, _ts)) => if signal && p != desired {
            Err(p)
        } else {
            Ok(desired)
        },
        None => Ok(desired),
    }
}

/// Which id a save uses: the desired id, unless another saved profile of
/// the account is its primary (most recently used) one and the account has
/// usage, which is then renamed.
pub fn save_id_choice(desired: &str, candidates: &[String], usage_map: &[(String, u64)]) -> (res:
    SaveIdChoice)
    ensures
        match save_choice_of(
            desired@,
            crate::usage::strings_view(candidates@),
            entries_view(usage_map@),
        ) {
            Ok(d) => res matches SaveIdChoice::Use(u) && u@ == d,
            Err(p) => res matches SaveIdChoice::Rename(r) && r@ == p,
        },
{
    let signal = has_usage_signal(candidates, usage_map);
    proof {
        assert(crate::usage::strings_view(candidates@).len() == candidates@.len());
        assert(signal == exists|i: int|
            0 <= i < crate::usage::strings_view(candidates@).len() && used_at_some_time(
                #[trigger] usage_of(entries_view(usage_map@), crate::usage::strings_view(candidates@)[i]),
            )) by {
            if signal {
                let i = choose|i: int|
                    0 <= i < candidates.len() && used_at_some_time(
                        #[trigger] usage_of(entries_view(usage_map@), candidates@[i]@),
                    );
                assert(crate::usage::strings_view(candidates@)[i] == candidates@[i]@);
            }
            if exists|i: int|
                0 <= i < crate::usage::strings_view(candidates@).len() && used_at_some_time(
                    #[trigger] usage_of(entries_view(usage_map@), crate::usage::strings_view(candidates@)[i]),
                ) {
                let i = choose|i: int|
                    0 <= i < crate::usage::strings_view(candidates@).len() && used_at_some_time(
                        #[trigger] usage_of(entries_view(usage_map@), crate::usage::strings_view(candidates@)[i]),
                    );
                assert(crate::usage::strings_view(candidates@)[i] == candidates@[i]@);
            }
        }
    }
    let primary = pick_primary(candidates, usage_map);
    match primary {
        Some(p) => {
            if signal && !crate::text::str_eq(p.as_str(), desired) {
                SaveIdChoice::Rename(p)
            } else {
                SaveIdChoice::Use(owned(desired))
            }
        },
        None => SaveIdChoice::Use(owned(desired)),
    }
}

/// Which saved profile a sync goes to.
#[derive(Debug, Clone, PartialEq, Eq)]
pub enum SyncIdChoice {
    /// Sync to this profile, or to none.
    Use(Option<String>),
    /// Rename this profile to the desired base first, then sync to it.
    Rename(String),
}

/// Which saved profile a sync goes to: without usage, the only candidate,
/// else the desired id where it is a candidate, else none; with usage, the
/// primary candidate, renamed first where it is not the desired id.
pub open spec fn sync_choice_of(
    desired: Seq<char>,
    candidates: Seq<Seq<char>>,
    map: Seq<(Seq<char>, u64)>,
) -> (Option<Seq<char>>, bool) {
    let signal = exists|i: int|
        0 <= i < candidates.len() && used_at_some_time(#[trigger] usage_of(map, candidates[i]));
    if !signal {
        if candidates.len() == 1 {
            (Some(candidates[0]), false)
        } else if candidates.contains(desired) {
            (Some(desired), false)
        } else {
            (None, false)
        }
    } else {
        match primary_of(candidates, map, candidates.len() as int) {
            None => (None, false),
            Some((p, _ts)) => (Some(p), p != desired),
        }
    }
}

/// Which saved profile a sync goes to.
pub fn sync_id_choice(desired: &str, candidates: &[String], usage_map: &[(String, u64)]) -> (res:
    SyncIdChoice)
    ensures
        ({
            let (target, rename) = sync_choice_of(
                desired@,
                crate::usage::strings_view(candidates@),
                entries_view(usage_map@),
            );
            if rename {
                res matches SyncIdChoice::Rename(r) && target == Some(r@)
            } else {
                res matches SyncIdChoice::Use(u) && crate::auth::opt_seq(u) == target
            }
        }),
{
    let ghost cv = crate::usage::strings_view(candidates@);
    let signal = has_usage_signal(candidates, usage_map);
    proof {
        assert(signal == exists|i: int|
            0 <= i < cv.len() && used_at_some_time(
                #[trigger] usage_of(entries_view(usage_map@), cv[i]),
            )) by {
            if signal {
                let i = choose|i: int|
                    0 <= i < candidates.len() && used_at_some_time(
                        #[trigger] usage_of(entries_view(usage_map@), candidates@[i]@),
                    );
                assert(cv[i] == candidates@[i]@);
            }
            if exists|i: int|
                0 <= i < cv.len() && used_at_some_time(
                    #[trigger] usage_of(entries_view(usage_map@), cv[i]),
                ) {
                let i = choose|i: int|
                    0 <= i < cv.len() && used_at_some_time(
                        #[trigger] usage_of(entries_view(usage_map@), cv[i]),
                    );
                assert(cv[i] == candidates@[i]@);
            }
        }
    }
    if !signal {
        if candidates.len() == 1 {
            return SyncIdChoice::Use(Some(candidates[0].clone()));
        }
        let found = crate::strmap::listed_text(candidates, desired);
        proof {
            assert(crate::strmap::texts_view(candidates@) =~= cv);
        }
        if found {
            return SyncIdChoice::Use(Some(owned(desired)));
        }
        return SyncIdChoice::Use(None);
    }
    match pick_primary(candidates, usage_map) {
        None => SyncIdChoice::Use(None),
        Some(p) => {
            if crate::text::str_eq(p.as_str(), desired) {
                SyncIdChoice::Use(Some(p))
            } else {
                SyncIdChoice::Rename(p)
            }
        },
    }
}

/// Carries a renamed profile's records over to its new id: its last-used
/// time moves; its labels are dropped; its index entry moves, and it stays
/// the active profile where it was.
pub fn rename_records(
    usage_map: &mut crate::strmap::StrMap<u64>,
    labels: &mut crate::profile_store::Labels,
    index: &mut crate::profile_store::ProfilesIndex,
    from: &str,
    to: &str,
)
    ensures
        final(usage_map)@ == if old(usage_map)@.dom().contains(from@) {
            old(usage_map)@.remove(from@).insert(to@, old(usage_map)@[from@])
        } else {
            old(usage_map)@
        },
        crate::profile_store::label_texts(final(labels)@) == Map::new(
            |l: Seq<char>|
                crate::profile_store::label_texts(old(labels)@).dom().contains(l)
                    && crate::profile_store::label_texts(old(labels)@)[l] != from@,
            |l: Seq<char>| crate::profile_store::label_texts(old(labels)@)[l],
        ),
        final(index).profiles@ == if old(index).profiles@.dom().contains(from@) {
            old(index).profiles@.remove(from@).insert(to@, old(index).profiles@[from@])
        } else {
            old(index).profiles@
        },
        crate::auth::opt_seq(old(index).active_profile_id) == Some(from@) ==> crate::auth::opt_seq(
            final(index).active_profile_id,
        ) == Some(to@),
        crate::auth::opt_seq(old(index).active_profile_id) != Some(from@) ==> final(index).active_profile_id
            == old(index).active_profile_id,
        final(index).version == old(index).version,
        final(index).update_cache == old(index).update_cache,
{
    if let Some(ts) = usage_map.remove(from) {
        usage_map.insert(owned(to), ts);
    }
    crate::profile_store::remove_labels_for_id(labels, from);
    if let Some(entry) = index.profiles.remove(from) {
        index.profiles.insert(owned(to), entry);
    }
    let was_active = match &index.active_profile_id {
        Some(a) => crate::text::str_eq(a.as_str(), from),
        None => false,
    };
    if was_active {
        index.active_profile_id = Some(owned(to));
    }
}

/// A usage map from the entries of the usage file (a later entry for an id
/// wins).
pub fn usage_map_of(entries: &[(String, u64)]) -> (res: crate::strmap::StrMap<u64>)
    ensures
        res@ == crate::strmap::map_of(entries_view(entries@)),
{
    let mut m: crate::strmap::StrMap<u64> = crate::strmap::StrMap::new();
    let mut i: usize = 0;
    assert(entries_view(entries@).take(0) =~= Seq::<(Seq<char>, u64)>::empty());
    while i < entries.len()
        invariant
            i <= entries.len(),
            m@ == crate::strmap::map_of(entries_view(entries@).take(i as int)),
        decreases entries.len() - i,
    {
        assert(entries_view(entries@).take(i + 1).drop_last() =~= entries_view(entries@).take(
            i as int,
        ));
        m.insert(entries[i].0.clone(), entries[i].1);
        i = i + 1;
    }
    assert(entries_view(entries@).take(entries.len() as int) =~= entries_view(entries@));
    m
}

} // verus!
