//! Moving profiles to and from the accounts file of Every Code
//! (`auth_accounts.json`): which profiles make accounts, how an account is
//! matched with one already stored, and which profile an account becomes.
use crate::auth::{
    base64_url_no_pad_decode, decode_base64_url, token_claims_of, is_api_key_profile,
    is_api_key_tokens, jwt_payload, opt_seq, read_id_token_claims, AuthFile, Tokens,
};
use crate::text::{
    chars_of, concat, eq_ignore_case, owned, push_str, split_once_chars, split_once_seq,
    str_eq, str_eq_ignore_case, string_of, trim_seq, trim_str,
};
use crate::num::{dec_seq, lemma_dec_injective, u64_to_string};
use vstd::prelude::*;

verus! {

/// How an Every Code account logs in.
#[derive(Debug, Clone, Copy, PartialEq, Eq, Structural)]
pub enum AuthMode {
    ApiKey,
    Chatgpt,
}

/// The tokens of a ChatGPT account in the accounts file.
#[derive(Debug, Clone, PartialEq, Eq)]
pub struct EveryCodeTokens {
    pub id_token: String,
    pub access_token: String,
    pub refresh_token: String,
    pub account_id: Option<String>,
}

/// An account as the accounts file stores it.
#[derive(Debug, Clone, PartialEq, Eq)]
pub struct StoredAccount {
    pub id: String,
    pub mode: AuthMode,
    pub label: Option<String>,
    pub openai_api_key: Option<String>,
    pub tokens: Option<EveryCodeTokens>,
    pub last_refresh: Option<String>,
    pub created_at: Option<String>,
    pub last_used_at: Option<String>,
}

/// The accounts file.
#[derive(Debug, Clone, PartialEq, Eq)]
pub struct AccountsFile {
    pub version: u32,
    pub active_account_id: Option<String>,
    pub accounts: Vec<StoredAccount>,
}

/// An account as read for an import, before its mode is checked.
#[derive(Debug, Clone, PartialEq, Eq)]
pub struct StoredAccountRaw {
    pub mode: Option<String>,
    pub label: Option<String>,
    pub openai_api_key: Option<String>,
    pub tokens: Option<EveryCodeTokens>,
    pub last_refresh: Option<String>,
    pub last_used_at: Option<String>,
}

/// The accounts of an accounts file, as read for an import.
#[derive(Debug, Clone, PartialEq, Eq)]
pub struct AccountsFileRaw {
    pub accounts: Vec<StoredAccountRaw>,
}

/// The format version of a new accounts file.
pub const ACCOUNTS_FILE_VERSION: u32 = 1;

/// The name of the accounts file in the Every Code home directory.
pub open spec fn accounts_file_name() -> Seq<char> {
    "auth_accounts.json"@
}

/// An empty accounts file.
pub fn empty_accounts_file() -> (res: AccountsFile)
    ensures
        res.version == ACCOUNTS_FILE_VERSION,
        res.active_account_id is None,
        res.accounts@.len() == 0,
{
    AccountsFile { version: ACCOUNTS_FILE_VERSION, active_account_id: None, accounts: Vec::new() }
}

// ---------------------------------------------------------------------------
// Id tokens
// ---------------------------------------------------------------------------

/// The second piece of a token between dots (to its end where there is no
/// second dot); `None` without a dot.
pub open spec fn second_piece(token: Seq<char>) -> Option<Seq<char>> {
    match split_once_seq(token, '.') {
        None => None,
        Some((_h, rest)) => match split_once_seq(rest, '.') {
            Some((p, _s)) => Some(p),
            None => Some(rest),
        },
    }
}

/// Whether an id token's payload decodes to JSON.
pub open spec fn id_token_ok(token: Seq<char>) -> bool {
    match second_piece(token) {
        Some(p) => match base64_url_no_pad_decode(p) {
            Some(b) => token_claims_of(b) is Some,
            None => false,
        },
        None => false,
    }
}

/// The `email` claim of an id token, as it is.
pub open spec fn token_email(token: Seq<char>) -> Option<Seq<char>> {
    match jwt_payload(token) {
        Some(p) => match base64_url_no_pad_decode(p) {
            Some(b) => match token_claims_of(b) {
                Some((Some(Some(e)), _pl)) => Some(e),
                _ => None,
            },
            None => None,
        },
        None => None,
    }
}

fn claims_of_payload(payload: &[char]) -> (res: Option<Option<String>>)
    ensures
        match base64_url_no_pad_decode(payload@) {
            Some(b) => match token_claims_of(b) {
                Some((e, _p)) => res matches Some(re) && opt_seq(re) == match e {
                    Some(Some(s)) => Some(s),
                    _ => None,
                },
                None => res is None,
            },
            None => res is None,
        },
{
    let s = string_of(payload);
    let bytes = match decode_base64_url(s.as_str()) {
        Some(b) => b,
        None => return None,
    };
    match read_id_token_claims(bytes.as_slice(), "email", "https://api.openai.com/auth", "chatgpt_plan_type") {
        None => None,
        Some((Some(Some(e)), _a)) => Some(Some(e)),
        Some(_) => Some(None),
    }
}

/// Whether an id token's payload decodes to JSON.
pub fn id_token_valid(id_token: &str) -> (res: bool)
    ensures
        res == id_token_ok(id_token@),
{
    let t = chars_of(id_token);
    let rest = match split_once_chars(&t, '.') {
        Some((_h, rest)) => rest,
        None => return false,
    };
    let payload = match split_once_chars(&rest, '.') {
        Some((p, _s)) => p,
        None => rest,
    };
    claims_of_payload(&payload).is_some()
}

/// The `email` claim of an id token.
pub fn email_from_id_token(id_token: &str) -> (res: Option<String>)
    ensures
        opt_seq(res) == token_email(id_token@),
{
    let t = chars_of(id_token);
    let rest = match split_once_chars(&t, '.') {
        Some((_h, rest)) => rest,
        None => return None,
    };
    let payload = match split_once_chars(&rest, '.') {
        Some((p, _s)) => p,
        None => return None,
    };
    match claims_of_payload(&payload) {
        Some(e) => e,
        None => None,
    }
}

// ---------------------------------------------------------------------------
// From accounts to profiles
// ---------------------------------------------------------------------------

/// Why an account's tokens cannot make a profile, checked in this order;
/// `None` where they can.
pub open spec fn everycode_tokens_error(t: EveryCodeTokens) -> Option<Seq<char>> {
    if trim_seq(t.id_token@).len() == 0 {
        Some("Error: account tokens missing id_token"@)
    } else if !id_token_ok(t.id_token@) {
        Some("Error: account id_token is invalid"@)
    } else if trim_seq(t.access_token@).len() == 0 {
        Some("Error: account tokens missing access_token"@)
    } else if trim_seq(t.refresh_token@).len() == 0 {
        Some("Error: account tokens missing refresh_token"@)
    } else if t.account_id is None {
        Some("Error: account tokens missing account_id"@)
    } else {
        None
    }
}

/// The login of a ChatGPT account: its four tokens.
pub fn build_tokens_from_everycode(tokens: &EveryCodeTokens) -> (res: Result<Tokens, String>)
    ensures
        match everycode_tokens_error(*tokens) {
            Some(m) => res matches Err(e) && e@ == m,
            None => res matches Ok(t) && opt_seq(t.account_id) == opt_seq(tokens.account_id)
                && opt_seq(t.id_token) == Some(tokens.id_token@) && opt_seq(t.access_token)
                == Some(tokens.access_token@) && opt_seq(t.refresh_token) == Some(
                tokens.refresh_token@,
            ),
        },
{
    if trim_str(tokens.id_token.as_str()).as_str().is_empty() {
        return Err(owned("Error: account tokens missing id_token"));
    }
    if !id_token_valid(tokens.id_token.as_str()) {
        return Err(owned("Error: account id_token is invalid"));
    }
    if trim_str(tokens.access_token.as_str()).as_str().is_empty() {
        return Err(owned("Error: account tokens missing access_token"));
    }
    if trim_str(tokens.refresh_token.as_str()).as_str().is_empty() {
        return Err(owned("Error: account tokens missing refresh_token"));
    }
    let account_id = match &tokens.account_id {
        Some(a) => a.clone(),
        None => return Err(owned("Error: account tokens missing account_id")),
    };
    Ok(
        Tokens {
            account_id: Some(account_id),
            id_token: Some(tokens.id_token.clone()),
            access_token: Some(tokens.access_token.clone()),
            refresh_token: Some(tokens.refresh_token.clone()),
        },
    )
}

/// A text that is present and not empty.
pub open spec fn filled(o: Option<String>) -> Option<Seq<char>> {
    match o {
        Some(s) => if s@.len() > 0 {
            Some(s@)
        } else {
            None
        },
        None => None,
    }
}

fn filled_exec(o: &Option<String>) -> (res: Option<String>)
    ensures
        opt_seq(res) == filled(*o),
{
    match o {
        Some(s) => if s.as_str().is_empty() {
            None
        } else {
            Some(s.clone())
        },
        None => None,
    }
}

/// Why a saved profile cannot make an account, checked in this order;
/// `None` where it can. A profile with an API key makes an API-key account.
pub open spec fn export_error(auth: AuthFile) -> Option<Seq<char>> {
    if filled(auth.openai_api_key) is Some {
        None
    } else {
        match auth.tokens {
            None => Some("Error: profile missing tokens and API key; re-save the profile"@),
            Some(t) => if is_api_key_tokens(t) {
                Some("Error: profile uses API key but key is missing"@)
            } else if filled(t.id_token) is None {
                Some("Error: profile is missing id_token"@)
            } else if !id_token_ok(t.id_token->0@) {
                Some("Error: profile has invalid id_token"@)
            } else if filled(t.access_token) is None {
                Some("Error: profile is missing access_token"@)
            } else if filled(t.refresh_token) is None {
                Some("Error: profile is missing refresh_token"@)
            } else {
                None
            },
        }
    }
}

/// Whether an account was built from a saved profile: under the profile id,
/// with the label and the last refresh, as an API-key account where the
/// profile has a key, else as a ChatGPT account with its tokens.
pub open spec fn account_from_profile(
    a: StoredAccount,
    profile_id: Seq<char>,
    label: Option<Seq<char>>,
    auth: AuthFile,
) -> bool {
    &&& a.id@ == profile_id
    &&& opt_seq(a.label) == label
    &&& opt_seq(a.last_refresh) == opt_seq(auth.last_refresh)
    &&& a.created_at is None
    &&& a.last_used_at is None
    &&& if filled(auth.openai_api_key) is Some {
        &&& a.mode == AuthMode::ApiKey
        &&& opt_seq(a.openai_api_key) == filled(auth.openai_api_key)
        &&& a.tokens is None
    } else {
        let t = auth.tokens->0;
        &&& a.mode == AuthMode::Chatgpt
        &&& a.openai_api_key is None
        &&& a.tokens matches Some(at) && at.id_token@ == t.id_token->0@ && at.access_token@
            == t.access_token->0@ && at.refresh_token@ == t.refresh_token->0@ && opt_seq(
            at.account_id,
        ) == opt_seq(t.account_id)
    }
}

/// The account that a saved profile makes; an error where it cannot make
/// one.
pub fn build_account(profile_id: &str, label: Option<String>, auth: &AuthFile) -> (res: Result<
    Option<StoredAccount>,
    String,
>)
    ensures
        match export_error(*auth) {
            Some(m) => res matches Err(e) && e@ == m,
            None => res matches Ok(Some(a)) && account_from_profile(
                a,
                profile_id@,
                opt_seq(label),
                *auth,
            ),
        },
{
    if let Some(api_key) = filled_exec(&auth.openai_api_key) {
        return Ok(
            Some(
                StoredAccount {
                    id: owned(profile_id),
                    mode: AuthMode::ApiKey,
                    label,
                    openai_api_key: Some(api_key),
                    tokens: None,
                    last_refresh: auth.last_refresh.clone(),
                    created_at: None,
                    last_used_at: None,
                },
            ),
        );
    }
    let tokens = match &auth.tokens {
        Some(t) => t,
        None => return Err(owned("Error: profile missing tokens and API key; re-save the profile")),
    };
    if is_api_key_profile(tokens) {
        return Err(owned("Error: profile uses API key but key is missing"));
    }
    let id_token = match filled_exec(&tokens.id_token) {
        Some(t) => t,
        None => return Err(owned("Error: profile is missing id_token")),
    };
    if !id_token_valid(id_token.as_str()) {
        return Err(owned("Error: profile has invalid id_token"));
    }
    let access_token = match filled_exec(&tokens.access_token) {
        Some(t) => t,
        None => return Err(owned("Error: profile is missing access_token")),
    };
    let refresh_token = match filled_exec(&tokens.refresh_token) {
        Some(t) => t,
        None => return Err(owned("Error: profile is missing refresh_token")),
    };
    Ok(
        Some(
            StoredAccount {
                id: owned(profile_id),
                mode: AuthMode::Chatgpt,
                label,
                openai_api_key: None,
                tokens: Some(
                    EveryCodeTokens {
                        id_token,
                        access_token,
                        refresh_token,
                        account_id: tokens.account_id.clone(),
                    },
                ),
                last_refresh: auth.last_refresh.clone(),
                created_at: None,
                last_used_at: None,
            },
        ),
    )
}

// ---------------------------------------------------------------------------
// Matching and storing accounts
// ---------------------------------------------------------------------------

/// Whether two accounts are the same login: API-key accounts with the same
/// key, or ChatGPT accounts with the same account id and the same email
/// claim (ignoring ASCII case).
pub open spec fn same_account(existing: StoredAccount, candidate: StoredAccount) -> bool {
    match (existing.mode, candidate.mode) {
        (AuthMode::ApiKey, AuthMode::ApiKey) => opt_seq(existing.openai_api_key) == opt_seq(
            candidate.openai_api_key,
        ),
        (AuthMode::Chatgpt, AuthMode::Chatgpt) => match (existing.tokens, candidate.tokens) {
            (Some(et), Some(ct)) => {
                &&& et.account_id is Some
                &&& ct.account_id is Some
                &&& et.account_id->0@ == ct.account_id->0@
                &&& token_email(et.id_token@) is Some
                &&& token_email(ct.id_token@) is Some
                &&& eq_ignore_case(token_email(et.id_token@)->0, token_email(ct.id_token@)->0)
            },
            _ => false,
        },
        _ => false,
    }
}

/// Two ChatGPT accounts are one login only where both carry an email claim
/// and the claims are equal ignoring ASCII case, besides equal account ids:
/// accounts of one account id with different emails are different logins.
pub proof fn lemma_chatgpt_match_needs_email(existing: StoredAccount, candidate: StoredAccount)
    requires
        existing.mode == AuthMode::Chatgpt,
        candidate.mode == AuthMode::Chatgpt,
        same_account(existing, candidate),
    ensures
        existing.tokens is Some && candidate.tokens is Some,
        existing.tokens->0.account_id is Some,
        opt_seq(existing.tokens->0.account_id) == opt_seq(candidate.tokens->0.account_id),
        token_email(existing.tokens->0.id_token@) is Some,
        token_email(candidate.tokens->0.id_token@) is Some,
        crate::text::lower_seq(token_email(existing.tokens->0.id_token@)->0) == crate::text::lower_seq(
            token_email(candidate.tokens->0.id_token@)->0,
        ),
{
}

fn opt_str_eq(a: &Option<String>, b: &Option<String>) -> (res: bool)
    ensures
        res == (opt_seq(*a) == opt_seq(*b)),
{
    match (a, b) {
        (Some(x), Some(y)) => str_eq(x.as_str(), y.as_str()),
        (None, None) => true,
        _ => false,
    }
}

/// Whether two accounts are the same login.
pub fn match_account(existing: &StoredAccount, candidate: &StoredAccount) -> (res: bool)
    ensures
        res == same_account(*existing, *candidate),
        res && existing.mode == AuthMode::Chatgpt ==> candidate.mode == AuthMode::Chatgpt
            && existing.tokens is Some && candidate.tokens is Some && ({
            let ee = token_email(existing.tokens->0.id_token@);
            let ce = token_email(candidate.tokens->0.id_token@);
            &&& existing.tokens->0.account_id is Some
            &&& opt_seq(existing.tokens->0.account_id) == opt_seq(candidate.tokens->0.account_id)
            &&& ee is Some && ce is Some
            &&& crate::text::lower_seq(ee->0) == crate::text::lower_seq(ce->0)
        }),
{
    match (existing.mode, candidate.mode) {
        (AuthMode::ApiKey, AuthMode::ApiKey) => opt_str_eq(
            &existing.openai_api_key,
            &candidate.openai_api_key,
        ),
        (AuthMode::Chatgpt, AuthMode::Chatgpt) => {
            let et = match &existing.tokens {
                Some(t) => t,
                None => return false,
            };
            let ct = match &candidate.tokens {
                Some(t) => t,
                None => return false,
            };
            let account_id_matches = match (&et.account_id, &ct.account_id) {
                (Some(a), Some(b)) => str_eq(a.as_str(), b.as_str()),
                _ => false,
            };
            let email_matches = match (
                email_from_id_token(et.id_token.as_str()),
                email_from_id_token(ct.id_token.as_str()),
            ) {
                (Some(a), Some(b)) => str_eq_ignore_case(a.as_str(), b.as_str()),
                _ => false,
            };
            account_id_matches && email_matches
        },
        _ => false,
    }
}

// ---------------------------------------------------------------------------
// Free names
// ---------------------------------------------------------------------------

/// A name with a numeric suffix: `{base}-{k}`.
pub open spec fn suffixed(base: Seq<char>, k: nat) -> Seq<char> {
    base + "-"@ + dec_seq(k)
}

/// Texts of strings.
pub open spec fn texts(v: Seq<String>) -> Seq<Seq<char>> {
    Seq::new(v.len(), |i: int| v[i]@)
}

/// Whether `k` is the first suffix from 2 on whose name is not taken.
pub open spec fn first_free(base: Seq<char>, taken: Seq<Seq<char>>, k: nat) -> bool {
    &&& k >= 2
    &&& !taken.contains(suffixed(base, k))
    &&& forall|j: nat| 2 <= j < k ==> taken.contains(#[trigger] suffixed(base, j))
}

proof fn lemma_suffixed_injective(base: Seq<char>, j: nat, k: nat)
    requires
        suffixed(base, j) == suffixed(base, k),
    ensures
        j == k,
{
    reveal_strlit("-");
    let n: int = base.len() as int + 1;
    assert(suffixed(base, j).skip(n) =~= dec_seq(j));
    assert(suffixed(base, k).skip(n) =~= dec_seq(k));
    lemma_dec_injective(j, k);
}

/// The names with suffixes from 2 up to `k`, not including it.
spec fn suffixed_below(base: Seq<char>, k: nat) -> Set<Seq<char>> {
    Set::new(|s: Seq<char>| exists|j: nat| 2 <= j < k && s == #[trigger] suffixed(base, j))
}

proof fn lemma_suffixed_below_len(base: Seq<char>, k: nat)
    requires
        k >= 2,
    ensures
        suffixed_below(base, k).finite(),
        suffixed_below(base, k).len() == k - 2,
    decreases k,
{
    if k == 2 {
        assert(suffixed_below(base, k) =~= Set::<Seq<char>>::empty());
    } else {
        let k1 = (k - 1) as nat;
        lemma_suffixed_below_len(base, k1);
        let s = suffixed(base, k1);
        assert(!suffixed_below(base, k1).contains(s)) by {
            if suffixed_below(base, k1).contains(s) {
                let j = choose|j: nat| 2 <= j < k1 && s == #[trigger] suffixed(base, j);
                lemma_suffixed_injective(base, j, k1);
            }
        }
        assert(suffixed_below(base, k) =~= suffixed_below(base, k1).insert(s));
    }
}

/// The first name `{base}-{k}`, for `k` from 2 on, that is not taken.
pub fn first_free_suffix(base: &str, taken: &[String]) -> (res: String)
    requires
        taken.len() + 2 <= u64::MAX,
    ensures
        exists|k: nat| first_free(base@, texts(taken@), k) && res@ == suffixed(base@, k),
{
    let ghost tv = texts(taken@);
    let mut k: u64 = 2;
    proof {
        tv.lemma_cardinality_of_set();
    }
    loop
        invariant
            2 <= k <= taken.len() + 2,
            tv == texts(taken@),
            taken.len() + 2 <= u64::MAX,
            tv.to_set().len() <= tv.len(),
            tv.to_set().finite(),
            forall|j: nat| 2 <= j < k ==> tv.contains(#[trigger] suffixed(base@, j)),
        decreases taken.len() + 2 - k,
    {
        let mut candidate = concat(base, "-");
        push_str(&mut candidate, u64_to_string(k).as_str());
        proof {
            reveal_strlit("-");
        }
        assert(candidate@ == suffixed(base@, k as nat));
        if !crate::strmap::listed_text(taken, candidate.as_str()) {
            assert(crate::strmap::texts_view(taken@) =~= tv);
            return candidate;
        }
        proof {
            assert(crate::strmap::texts_view(taken@) =~= tv);
            let next = (k + 1) as nat;
            lemma_suffixed_below_len(base@, next);
            assert forall|s: Seq<char>| suffixed_below(base@, next).contains(s) implies tv.to_set().contains(s) by {
                let j = choose|j: nat| 2 <= j < next && s == #[trigger] suffixed(base@, j);
                assert(tv.contains(suffixed(base@, j)));
            }
            vstd::set_lib::lemma_len_subset(suffixed_below(base@, next), tv.to_set());
        }
        k = k + 1;
    }
}

/// The id a new account gets: the profile id where no account has it, else
/// the first free `{id}-{k}` from 2 on.
pub open spec fn fresh_account_id(base: Seq<char>, ids: Seq<Seq<char>>, res: Seq<char>) -> bool {
    if !ids.contains(base) {
        res == base
    } else {
        exists|k: nat| first_free(base, ids, k) && res == suffixed(base, k)
    }
}

/// The ids of accounts.
pub open spec fn account_ids(a: Seq<StoredAccount>) -> Seq<Seq<char>> {
    Seq::new(a.len(), |i: int| a[i].id@)
}

fn account_id_list(accounts: &[StoredAccount]) -> (res: Vec<String>)
    ensures
        texts(res@) == account_ids(accounts@),
        res.len() == accounts.len(),
{
    let mut out: Vec<String> = Vec::new();
    let mut i: usize = 0;
    while i < accounts.len()
        invariant
            i <= accounts.len(),
            out.len() == i,
            texts(out@) == account_ids(accounts@).take(i as int),
        decreases accounts.len() - i,
    {
        let ghost before = texts(out@);
        out.push(accounts[i].id.clone());
        assert(texts(out@) =~= before.push(accounts@[i as int].id@));
        assert(account_ids(accounts@).take(i + 1) =~= account_ids(accounts@).take(i as int).push(
            accounts@[i as int].id@,
        ));
        i = i + 1;
    }
    assert(account_ids(accounts@).take(accounts.len() as int) =~= account_ids(accounts@));
    out
}

/// The id for a new account whose profile id is `base`.
pub fn unique_account_id(base: &str, accounts: &[StoredAccount]) -> (res: String)
    requires
        accounts.len() + 2 <= u64::MAX,
    ensures
        fresh_account_id(base@, account_ids(accounts@), res@),
{
    let ids = account_id_list(accounts);
    assert(crate::strmap::texts_view(ids@) =~= texts(ids@));
    if !crate::strmap::listed_text(&ids, base) {
        return owned(base);
    }
    first_free_suffix(base, &ids)
}

/// An option that a newer one replaces where it is given.
pub open spec fn newer<T>(old: Option<T>, new: Option<T>) -> Option<T> {
    match new {
        Some(v) => Some(v),
        None => old,
    }
}

/// The first stored account that is the same login as a candidate.
pub open spec fn first_match(accounts: Seq<StoredAccount>, candidate: StoredAccount) -> Option<int> {
    if exists|i: int| 0 <= i < accounts.len() && same_account(#[trigger] accounts[i], candidate) {
        Some(
            choose|i: int|
                0 <= i < accounts.len() && same_account(#[trigger] accounts[i], candidate)
                    && forall|j: int| 0 <= j < i ==> !same_account(#[trigger] accounts[j], candidate),
        )
    } else {
        None
    }
}

/// Stores an account: where a stored account is the same login, its label,
/// last refresh, tokens and key are replaced by those the new account
/// gives; otherwise the account is added under a free id. The id of the
/// stored account.
#[verifier::rlimit(40)]
pub fn upsert_account(data: &mut AccountsFile, account: StoredAccount) -> (res: String)
    requires
        old(data).accounts.len() + 3 <= u64::MAX,
    ensures
        final(data).version == old(data).version,
        final(data).active_account_id == old(data).active_account_id,
        final(data).accounts.len() >= old(data).accounts.len(),
        forall|j: int|
            0 <= j < old(data).accounts.len() ==> (#[trigger] final(data).accounts@[j]).id
                == old(data).accounts@[j].id,
        account_ids(final(data).accounts@).contains(res@),
        match first_match(old(data).accounts@, account) {
            Some(i) => {
                let o = old(data).accounts@[i];
                let n = final(data).accounts@[i];
                &&& final(data).accounts@.len() == old(data).accounts@.len()
                &&& forall|j: int|
                    0 <= j < old(data).accounts@.len() && j != i ==> final(data).accounts@[j]
                        == old(data).accounts@[j]
                &&& res@ == o.id@
                &&& n.id == o.id
                &&& n.mode == o.mode
                &&& n.label == newer(o.label, account.label)
                &&& n.last_refresh == newer(o.last_refresh, account.last_refresh)
                &&& n.tokens == newer(o.tokens, account.tokens)
                &&& n.openai_api_key == newer(o.openai_api_key, account.openai_api_key)
                &&& n.created_at == o.created_at
                &&& n.last_used_at == o.last_used_at
            },
            None => {
                let n = final(data).accounts@.last();
                &&& final(data).accounts@.len() == old(data).accounts@.len() + 1
                &&& final(data).accounts@.drop_last() == old(data).accounts@
                &&& fresh_account_id(account.id@, account_ids(old(data).accounts@), res@)
                &&& n.id@ == res@
                &&& n.mode == account.mode
                &&& n.label == account.label
                &&& n.openai_api_key == account.openai_api_key
                &&& n.tokens == account.tokens
                &&& n.last_refresh == account.last_refresh
                &&& n.created_at == account.created_at
                &&& n.last_used_at == account.last_used_at
            },
        },
{
    let ghost before = data.accounts@;
    let mut i: usize = 0;
    while i < data.accounts.len()
        invariant
            i <= data.accounts.len(),
            data.accounts@ == before,
            before == old(data).accounts@,
            data.version == old(data).version,
            data.active_account_id == old(data).active_account_id,
            forall|j: int| 0 <= j < i ==> !same_account(#[trigger] before[j], account),
        decreases data.accounts.len() - i,
    {
        if match_account(&data.accounts[i], &account) {
            proof {
                let c = choose|k: int|
                    0 <= k < before.len() && same_account(#[trigger] before[k], account) && forall|
                        j: int,
                    |
                        0 <= j < k ==> !same_account(#[trigger] before[j], account);
                if c < i {
                    assert(!same_account(before[c], account));
                }
                if c > i {
                    assert(!same_account(before[i as int], account));
                }
                assert(first_match(before, account) == Some(i as int));
            }
            let mut stored = data.accounts.remove(i);
            let StoredAccount { label, last_refresh, tokens, openai_api_key, .. } = account;
            if label.is_some() {
                stored.label = label;
            }
            if last_refresh.is_some() {
                stored.last_refresh = last_refresh;
            }
            if tokens.is_some() {
                stored.tokens = tokens;
            }
            if openai_api_key.is_some() {
                stored.openai_api_key = openai_api_key;
            }
            let id = stored.id.clone();
            data.accounts.insert(i, stored);
            proof {
                assert(account_ids(data.accounts@)[i as int] == id@);
            }
            return id;
        }
        i = i + 1;
    }
    proof {
        assert(first_match(before, account) is None);
    }
    let id = unique_account_id(account.id.as_str(), data.accounts.as_slice());
    let mut account = account;
    account.id = id.clone();
    data.accounts.push(account);
    proof {
        assert(data.accounts@.drop_last() =~= before);
        assert(account_ids(data.accounts@)[before.len() as int] == id@);
        assert forall|j: int| 0 <= j < before.len() implies (#[trigger] data.accounts@[j]).id
            == before[j].id by {
            assert(data.accounts@.drop_last()[j] == data.accounts@[j]);
        }
    }
    id
}

// ---------------------------------------------------------------------------
// The active account
// ---------------------------------------------------------------------------

/// Whether an account is the API-key account with the key.
pub open spec fn key_account(a: StoredAccount, key: Seq<char>) -> bool {
    a.mode == AuthMode::ApiKey && opt_seq(a.openai_api_key) == Some(key)
}

/// Whether an account is the ChatGPT account of an account id whose stored
/// email claim equals the expected email (ignoring ASCII case).
pub open spec fn chatgpt_account(a: StoredAccount, account_id: Seq<char>, email: Option<Seq<char>>) -> bool {
    &&& a.mode == AuthMode::Chatgpt
    &&& a.tokens is Some
    &&& opt_seq(a.tokens->0.account_id) == Some(account_id)
    &&& email is Some
    &&& token_email(a.tokens->0.id_token@) is Some
    &&& eq_ignore_case(token_email(a.tokens->0.id_token@)->0, email->0)
}

/// The first account with a given key.
pub open spec fn first_key_account(s: Seq<StoredAccount>, key: Seq<char>) -> Option<int> {
    if exists|i: int| 0 <= i < s.len() && key_account(#[trigger] s[i], key) {
        Some(
            choose|i: int|
                0 <= i < s.len() && key_account(#[trigger] s[i], key) && forall|j: int|
                    0 <= j < i ==> !key_account(#[trigger] s[j], key),
        )
    } else {
        None
    }
}

/// The first ChatGPT account of an account id and email.
pub open spec fn first_chatgpt_account(s: Seq<StoredAccount>, account_id: Seq<char>, email: Option<
    Seq<char>,
>) -> Option<int> {
    if exists|i: int| 0 <= i < s.len() && chatgpt_account(#[trigger] s[i], account_id, email) {
        Some(
            choose|i: int|
                0 <= i < s.len() && chatgpt_account(#[trigger] s[i], account_id, email) && forall|
                    j: int,
                |
                    0 <= j < i ==> !chatgpt_account(#[trigger] s[j], account_id, email),
        )
    } else {
        None
    }
}

/// The account that a login's key picks.
#[verifier::opaque]
pub open spec fn key_lookup(s: Seq<StoredAccount>, a: AuthFile) -> Option<int> {
    match filled(a.openai_api_key) {
        Some(k) => first_key_account(s, k),
        None => None,
    }
}

/// The account that a login's tokens pick.
#[verifier::opaque]
pub open spec fn tokens_lookup(s: Seq<StoredAccount>, a: AuthFile) -> Option<int> {
    match a.tokens {
        Some(t) => match t.account_id {
            Some(aid) => first_chatgpt_account(s, aid@, crate::auth::email_and_plan(t).0),
            None => None,
        },
        None => None,
    }
}

/// The account that the current login makes active: none where there is no
/// readable login; else the account with its API key, else the ChatGPT
/// account with its account id and email, else the given fallback, else
/// the first account.
pub open spec fn active_account_of(
    s: Seq<StoredAccount>,
    auth: Option<AuthFile>,
    fallback: Option<Seq<char>>,
) -> Option<Seq<char>> {
    match auth {
        None => None,
        Some(a) => if key_lookup(s, a) is Some {
            Some(s[key_lookup(s, a)->0].id@)
        } else if tokens_lookup(s, a) is Some {
            Some(s[tokens_lookup(s, a)->0].id@)
        } else if fallback is Some {
            fallback
        } else if s.len() > 0 {
            Some(s[0].id@)
        } else {
            None
        },
    }
}

fn find_key_account(s: &[StoredAccount], key: &str) -> (res: Option<usize>)
    ensures
        match res {
            Some(r) => r < s.len() && first_key_account(s@, key@) == Some(r as int),
            None => first_key_account(s@, key@) is None,
        },
{
    let mut i: usize = 0;
    while i < s.len()
        invariant
            i <= s.len(),
            forall|j: int| 0 <= j < i ==> !key_account(#[trigger] s@[j], key@),
        decreases s.len() - i,
    {
        let hit = s[i].mode == AuthMode::ApiKey && match &s[i].openai_api_key {
            Some(k) => str_eq(k.as_str(), key),
            None => false,
        };
        if hit {
            proof {
                let c = choose|k: int|
                    0 <= k < s@.len() && key_account(#[trigger] s@[k], key@) && forall|j: int|
                        0 <= j < k ==> !key_account(#[trigger] s@[j], key@);
                if c < i {
                    assert(!key_account(s@[c], key@));
                }
                if c > i {
                    assert(!key_account(s@[i as int], key@));
                }
            }
            return Some(i);
        }
        i = i + 1;
    }
    None
}

#[verifier::rlimit(40)]
fn find_chatgpt_account(s: &[StoredAccount], account_id: &str, email: &Option<String>) -> (res: Option<
    usize,
>)
    ensures
        match res {
            Some(r) => r < s.len() && first_chatgpt_account(s@, account_id@, opt_seq(*email)) == Some(
                r as int,
            ),
            None => first_chatgpt_account(s@, account_id@, opt_seq(*email)) is None,
        },
{
    let mut i: usize = 0;
    while i < s.len()
        invariant
            i <= s.len(),
            forall|j: int|
                0 <= j < i ==> !chatgpt_account(#[trigger] s@[j], account_id@, opt_seq(*email)),
        decreases s.len() - i,
    {
        let hit = s[i].mode == AuthMode::Chatgpt && match &s[i].tokens {
            Some(t) => {
                let same_id = match &t.account_id {
                    Some(a) => str_eq(a.as_str(), account_id),
                    None => false,
                };
                same_id && match (email, email_from_id_token(t.id_token.as_str())) {
                    (Some(expected), Some(actual)) => str_eq_ignore_case(
                        actual.as_str(),
                        expected.as_str(),
                    ),
                    _ => false,
                }
            },
            None => false,
        };
        if hit {
            proof {
                let c = choose|k: int|
                    0 <= k < s@.len() && chatgpt_account(#[trigger] s@[k], account_id@, opt_seq(*email))
                        && forall|j: int|
                        0 <= j < k ==> !chatgpt_account(#[trigger] s@[j], account_id@, opt_seq(*email));
                if c < i {
                    assert(!chatgpt_account(s@[c], account_id@, opt_seq(*email)));
                }
                if c > i {
                    assert(!chatgpt_account(s@[i as int], account_id@, opt_seq(*email)));
                }
            }
            return Some(i);
        }
        i = i + 1;
    }
    None
}

fn find_by_key(s: &[StoredAccount], a: &AuthFile) -> (res: Option<usize>)
    ensures
        match res {
            Some(r) => r < s.len() && key_lookup(s@, *a) == Some(r as int),
            None => key_lookup(s@, *a) is None,
        },
{
    proof {
        reveal(key_lookup);
    }
    match filled_exec(&a.openai_api_key) {
        Some(k) => find_key_account(s, k.as_str()),
        None => None,
    }
}

fn find_by_tokens(s: &[StoredAccount], a: &AuthFile) -> (res: Option<usize>)
    ensures
        match res {
            Some(r) => r < s.len() && tokens_lookup(s@, *a) == Some(r as int),
            None => tokens_lookup(s@, *a) is None,
        },
{
    proof {
        reveal(tokens_lookup);
    }
    match &a.tokens {
        Some(t) => match &t.account_id {
            Some(aid) => {
                let (email, _plan) = crate::auth::extract_email_and_plan(t);
                find_chatgpt_account(s, aid.as_str(), &email)
            },
            None => None,
        },
        None => None,
    }
}

/// The account that the current login makes active, given the current
/// login where it could be read and an exported account to fall back on.
pub fn resolve_active_account_id(data: &AccountsFile, auth: Option<&AuthFile>, fallback: Option<&str>) -> (res:
    Option<String>)
    ensures
        opt_seq(res) == active_account_of(
            data.accounts@,
            match auth {
                Some(a) => Some(*a),
                None => None,
            },
            match fallback {
                Some(f) => Some(f@),
                None => None,
            },
        ),
{
    let a = match auth {
        Some(a) => a,
        None => return None,
    };
    if let Some(i) = find_by_key(data.accounts.as_slice(), a) {
        return Some(data.accounts[i].id.clone());
    }
    if let Some(i) = find_by_tokens(data.accounts.as_slice(), a) {
        return Some(data.accounts[i].id.clone());
    }
    if let Some(f) = fallback {
        return Some(owned(f));
    }
    if data.accounts.len() > 0 {
        return Some(data.accounts[0].id.clone());
    }
    None
}

// ---------------------------------------------------------------------------
// Labels and times of imported accounts
// ---------------------------------------------------------------------------

/// The labels after an imported account's label is given to profile `id`:
/// unchanged without a label (or a blank one) or where the label already
/// names the profile; the label where it is free; else the first free
/// `{label}-{k}` from 2 on.
pub open spec fn unique_label_result(
    old_m: Map<Seq<char>, Seq<char>>,
    keys: Seq<Seq<char>>,
    label: Option<Seq<char>>,
    id: Seq<char>,
    new_m: Map<Seq<char>, Seq<char>>,
) -> bool {
    match label {
        None => new_m == old_m,
        Some(l) => {
            let t = trim_seq(l);
            if t.len() == 0 {
                new_m == old_m
            } else if !old_m.dom().contains(t) {
                new_m == old_m.insert(t, id)
            } else if old_m[t] == id {
                new_m == old_m
            } else {
                exists|k: nat| first_free(t, keys, k) && new_m == old_m.insert(suffixed(t, k), id)
            }
        },
    }
}

/// Gives an imported account's label to profile `id`, choosing a free
/// variant of the label where another profile has it.
pub fn assign_label_unique(labels: &mut crate::profile_store::Labels, label: Option<&str>, id: &str) -> (res:
    Result<(), String>)
    requires
        old(labels).key_seq().len() + 2 <= u64::MAX,
    ensures
        res is Ok,
        unique_label_result(
            crate::profile_store::label_texts(old(labels)@),
            old(labels).key_seq(),
            match label {
                Some(l) => Some(l@),
                None => None,
            },
            id@,
            crate::profile_store::label_texts(final(labels)@),
        ),
{
    let ghost m0 = crate::profile_store::label_texts(labels@);
    let l = match label {
        Some(l) => l,
        None => return Ok(()),
    };
    let t = trim_str(l);
    if t.as_str().is_empty() {
        return Ok(());
    }
    let existing = match labels.get(t.as_str()) {
        None => None,
        Some(v) => Some(str_eq(v.as_str(), id)),
    };
    match existing {
        None => {
            labels.insert(t, owned(id));
            proof {
                assert(crate::profile_store::label_texts(labels@) =~= m0.insert(trim_seq(l@), id@));
            }
            Ok(())
        },
        Some(true) => Ok(()),
        Some(false) => {
            let keys = labels.keys();
            proof {
                let ks = labels.key_seq();
                assert(texts(keys@) =~= ks);
            }
            let name = first_free_suffix(t.as_str(), &keys);
            let ghost nv = name@;
            labels.insert(name, owned(id));
            proof {
                assert(crate::profile_store::label_texts(labels@) =~= m0.insert(nv, id@));
            }
            Ok(())
        },
    }
}

/// What `chrono::DateTime::parse_from_rfc3339` gives for a text, as Unix
/// seconds (`DateTime::timestamp`); `None` where the text is not RFC 3339.
pub uninterp spec fn rfc3339_seconds(text: Seq<char>) -> Option<i64>;

/// Calls `chrono::DateTime::parse_from_rfc3339` and `DateTime::timestamp`.
/// Trusted: the result is the name `rfc3339_seconds` applied to the text.
#[verifier::external_body]
fn rfc3339_timestamp(text: &str) -> (res: Option<i64>)
    ensures
        res == rfc3339_seconds(text@),
{
    chrono::DateTime::parse_from_rfc3339(text).ok().map(|dt| dt.timestamp())
}

/// The last-used time of an imported account: 0 without a time (or a blank
/// one), the time (at least 0) where it is RFC 3339, else `now`.
pub open spec fn last_used_of(value: Option<Seq<char>>, now: u64) -> u64 {
    match value {
        None => 0,
        Some(v) => {
            let t = trim_seq(v);
            if t.len() == 0 {
                0
            } else {
                match rfc3339_seconds(t) {
                    Some(secs) => if secs < 0 {
                        0
                    } else {
                        secs as u64
                    },
                    None => now,
                }
            }
        },
    }
}

/// The last-used time of an imported account.
pub fn parse_last_used(value: Option<&str>, now: u64) -> (res: u64)
    ensures
        res == last_used_of(
            match value {
                Some(v) => Some(v@),
                None => None,
            },
            now,
        ),
{
    let v = match value {
        Some(v) => v,
        None => return 0,
    };
    let t = trim_str(v);
    if t.as_str().is_empty() {
        return 0;
    }
    match rfc3339_timestamp(t.as_str()) {
        Some(secs) => if secs < 0 {
            0
        } else {
            secs as u64
        },
        None => now,
    }
}

// ---------------------------------------------------------------------------
// Profile files written by an import
// ---------------------------------------------------------------------------

/// The tokens that a written profile file holds: each one where it is not
/// empty.
#[derive(Debug, Clone, PartialEq, Eq)]
pub struct ProfileTokensJson {
    pub access_token: Option<String>,
    pub account_id: Option<String>,
    pub id_token: Option<String>,
    pub refresh_token: Option<String>,
}

/// A written profile file: an API key or tokens, and the last refresh.
#[derive(Debug, Clone, PartialEq, Eq)]
pub struct ProfileAuthJson {
    pub openai_api_key: Option<String>,
    pub last_refresh: Option<String>,
    pub tokens: Option<ProfileTokensJson>,
}

/// A text that is present and not blank.
pub open spec fn not_blank(o: Option<Seq<char>>) -> Option<Seq<char>> {
    match o {
        Some(v) => if trim_seq(v).len() > 0 {
            Some(v)
        } else {
            None
        },
        None => None,
    }
}

fn not_blank_exec(o: Option<&str>) -> (res: Option<String>)
    ensures
        opt_seq(res) == not_blank(
            match o {
                Some(v) => Some(v@),
                None => None,
            },
        ),
{
    match o {
        Some(v) => if trim_str(v).as_str().is_empty() {
            None
        } else {
            Some(owned(v))
        },
        None => None,
    }
}

/// The profile file of an imported API-key account.
pub fn auth_value_for_api_key(api_key: &str, last_refresh: Option<&str>) -> (res: ProfileAuthJson)
    ensures
        opt_seq(res.openai_api_key) == Some(api_key@),
        res.tokens is None,
        opt_seq(res.last_refresh) == not_blank(
            match last_refresh {
                Some(v) => Some(v@),
                None => None,
            },
        ),
{
    ProfileAuthJson {
        openai_api_key: Some(owned(api_key)),
        last_refresh: not_blank_exec(last_refresh),
        tokens: None,
    }
}

/// The profile file of an imported ChatGPT account.
pub fn auth_value_for_tokens(tokens: &Tokens, last_refresh: Option<&str>) -> (res: ProfileAuthJson)
    ensures
        res.openai_api_key is None,
        res.tokens matches Some(t) && opt_seq(t.account_id) == filled(tokens.account_id)
            && opt_seq(t.id_token) == filled(tokens.id_token) && opt_seq(t.access_token) == filled(
            tokens.access_token,
        ) && opt_seq(t.refresh_token) == filled(tokens.refresh_token),
        opt_seq(res.last_refresh) == not_blank(
            match last_refresh {
                Some(v) => Some(v@),
                None => None,
            },
        ),
{
    ProfileAuthJson {
        openai_api_key: None,
        last_refresh: not_blank_exec(last_refresh),
        tokens: Some(
            ProfileTokensJson {
                access_token: filled_exec(&tokens.access_token),
                account_id: filled_exec(&tokens.account_id),
                id_token: filled_exec(&tokens.id_token),
                refresh_token: filled_exec(&tokens.refresh_token),
            },
        ),
    }
}

// ---------------------------------------------------------------------------
// Exports and imports
// ---------------------------------------------------------------------------

/// A warning as shown without color.
pub open spec fn warning_text(plain: bool, message: Seq<char>) -> Seq<char> {
    if plain {
        "WARNING: "@ + message
    } else {
        "Warning: "@ + message
    }
}

/// Whether a shown warning is the warning for a message: exactly its text
/// where no color is used, else that text in the warning style.
pub open spec fn warns(w: Seq<char>, ui: crate::ui::Ui, use_color: bool, message: Seq<char>) -> bool {
    &&& (!use_color || ui.plain) ==> w == warning_text(ui.plain, message)
    &&& (use_color && !ui.plain) ==> crate::ui::styled_as(
        w,
        warning_text(false, message),
        crate::ui::paint_prefix(crate::ui::Paint::YellowDimmedItalic),
    )
}

/// A saved profile offered for an export: its id, its label, and its file
/// as it was read.
#[derive(Debug)]
pub struct ExportItem {
    pub profile_id: String,
    pub label: Option<String>,
    pub auth: Result<AuthFile, String>,
}

/// What an export did with a profile: stored it under an account id, or
/// skipped it with a warning.
#[derive(Debug, Clone, PartialEq, Eq)]
pub enum ExportStep {
    Stored(String),
    Skipped(String),
}

/// What an export gives: the accounts file, what it did with each profile,
/// and how many profiles it stored and skipped.
#[derive(Debug)]
pub struct ExportOutcome {
    pub data: AccountsFile,
    pub steps: Vec<ExportStep>,
    pub exported: usize,
    pub skipped: usize,
}

/// Whether a profile was stored or skipped as its file calls for.
pub open spec fn export_step_ok(
    item: ExportItem,
    step: ExportStep,
    ui: crate::ui::Ui,
    use_color: bool,
    accounts: Seq<StoredAccount>,
) -> bool {
    match item.auth {
        Err(e) => step matches ExportStep::Skipped(w) && warns(
            w@,
            ui,
            use_color,
            crate::ui::normalized_error(e@),
        ),
        Ok(a) => match export_error(a) {
            Some(m) => step matches ExportStep::Skipped(w) && warns(
                w@,
                ui,
                use_color,
                crate::ui::normalized_error(m),
            ),
            None => step matches ExportStep::Stored(id) && account_ids(accounts).contains(id@),
        },
    }
}

/// How many steps stored a profile.
pub open spec fn stored_count(steps: Seq<ExportStep>) -> nat
    decreases steps.len(),
{
    if steps.len() == 0 {
        0
    } else {
        stored_count(steps.drop_last()) + if steps.last() is Stored {
            1nat
        } else {
            0nat
        }
    }
}

proof fn lemma_stored_count_bound(steps: Seq<ExportStep>)
    ensures
        stored_count(steps) <= steps.len(),
    decreases steps.len(),
{
    if steps.len() > 0 {
        lemma_stored_count_bound(steps.drop_last());
    }
}

/// Exports saved profiles into an accounts file: each profile whose file
/// could be read and makes an account is stored (as `upsert_account`
/// stores it); the others are skipped with a warning.
pub fn export_accounts(
    data: AccountsFile,
    items: Vec<ExportItem>,
    ui: &crate::ui::Ui,
    use_color: bool,
) -> (res: ExportOutcome)
    requires
        data.accounts.len() + items.len() + 3 <= u64::MAX,
    ensures
        res.steps.len() == items.len(),
        forall|i: int|
            0 <= i < items.len() ==> export_step_ok(
                #[trigger] items@[i],
                res.steps@[i],
                *ui,
                use_color,
                res.data.accounts@,
            ),
        res.exported == stored_count(res.steps@),
        res.exported + res.skipped == items.len(),
        res.data.version == data.version,
        res.data.active_account_id == data.active_account_id,
        res.data.accounts.len() >= data.accounts.len(),
        forall|j: int|
            0 <= j < data.accounts.len() ==> (#[trigger] res.data.accounts@[j]).id@
                == data.accounts@[j].id@,
{
    let ghost items0 = items@;
    let ghost data0 = data;
    let mut data = data;
    let mut steps: Vec<ExportStep> = Vec::new();
    let mut exported: usize = 0;
    let mut skipped: usize = 0;
    let mut i: usize = 0;
    while i < items.len()
        invariant
            i <= items.len(),
            items@ == items0,
            steps.len() == i,
            data.accounts.len() <= data0.accounts.len() + i,
            data0.accounts.len() + items.len() + 3 <= u64::MAX,
            forall|k: int|
                0 <= k < i ==> export_step_ok(
                    #[trigger] items0[k],
                    steps@[k],
                    *ui,
                    use_color,
                    data.accounts@,
                ),
            exported == stored_count(steps@),
            exported + skipped == i,
            data.version == data0.version,
            data.active_account_id == data0.active_account_id,
            data.accounts.len() >= data0.accounts.len(),
            forall|j: int|
                0 <= j < data0.accounts.len() ==> (#[trigger] data.accounts@[j]).id@
                    == data0.accounts@[j].id@,
        decreases items.len() - i,
    {
        let ghost before_accounts = data.accounts@;
        let ghost before_steps = steps@;
        let item = &items[i];
        let step = match &item.auth {
            Err(e) => {
                let m = crate::ui::normalize_error(e.as_str());
                ExportStep::Skipped(ui.format_warning(m.as_str(), use_color))
            },
            Ok(a) => match build_account(item.profile_id.as_str(), item.label.clone(), a) {
                Err(e) => {
                    let m = crate::ui::normalize_error(e.as_str());
                    ExportStep::Skipped(ui.format_warning(m.as_str(), use_color))
                },
                Ok(None) => ExportStep::Skipped(owned("")),
                Ok(Some(account)) => {
                    let id = upsert_account(&mut data, account);
                    ExportStep::Stored(id)
                },
            },
        };
        proof {
            // stored ids only ever grow the accounts at the end or change
            // fields other than ids
            assert forall|k: int| 0 <= k < i implies export_step_ok(
                #[trigger] items0[k],
                before_steps[k],
                *ui,
                use_color,
                data.accounts@,
            ) by {
                assert(export_step_ok(items0[k], before_steps[k], *ui, use_color, before_accounts));
                if before_steps[k] is Stored {
                    let id = before_steps[k]->Stored_0;
                    let j = choose|j: int|
                        0 <= j < account_ids(before_accounts).len() && account_ids(before_accounts)[j]
                            == id@;
                    assert(account_ids(data.accounts@)[j] == id@);
                }
            }
        }
        if matches!(step, ExportStep::Stored(_)) {
            exported = exported + 1;
        } else {
            skipped = skipped + 1;
        }
        let ghost gstep = step;
        steps.push(step);
        proof {
            assert(steps@.drop_last() =~= before_steps);
            assert(steps@[i as int] == gstep);
            if gstep is Stored {
                let id = gstep->Stored_0;
                if !(account_ids(data.accounts@).contains(id@)) {
                    assert(false);
                }
            }
        }
        i = i + 1;
    }
    ExportOutcome { data, steps, exported, skipped }
}

/// `s` after a count other than one.
pub open spec fn plural(n: nat) -> Seq<char> {
    if n == 1 {
        ""@
    } else {
        "s"@
    }
}

/// The line that reports an export or an import: `{verb} {n} profile(s).`,
/// with `(skipped {k})` before the dot where some were skipped.
pub open spec fn summary_text(verb: Seq<char>, done: nat, skipped: nat) -> Seq<char> {
    verb + " "@ + dec_seq(done) + " profile"@ + plural(done) + if skipped > 0 {
        " (skipped "@ + dec_seq(skipped) + ")."@
    } else {
        "."@
    }
}

/// The line that reports an export or an import.
pub fn summary_line(verb: &str, done: usize, skipped: usize) -> (res: String)
    ensures
        res@ == summary_text(verb@, done as nat, skipped as nat),
{
    proof {
        reveal_strlit("");
        reveal_strlit("s");
        reveal_strlit(".");
    }
    let mut out = concat(verb, " ");
    push_str(&mut out, u64_to_string(done as u64).as_str());
    push_str(&mut out, " profile");
    if done != 1 {
        push_str(&mut out, "s");
    }
    if skipped > 0 {
        push_str(&mut out, " (skipped ");
        push_str(&mut out, u64_to_string(skipped as u64).as_str());
        push_str(&mut out, ").");
    } else {
        push_str(&mut out, ".");
    }
    proof {
        if done == 1 {
            assert(plural(done as nat) =~= Seq::<char>::empty());
        }
    }
    out
}

/// The first account id an export stored, in the order of the profiles.
pub open spec fn first_stored(steps: Seq<ExportStep>) -> Option<Seq<char>>
    decreases steps.len(),
{
    if steps.len() == 0 {
        None
    } else {
        match steps[0] {
            ExportStep::Stored(id) => Some(id@),
            ExportStep::Skipped(_) => first_stored(steps.drop_first()),
        }
    }
}

fn first_stored_exec(steps: &[ExportStep]) -> (res: Option<&String>)
    ensures
        match res {
            Some(id) => first_stored(steps@) == Some(id@),
            None => first_stored(steps@) is None,
        },
{
    let mut i: usize = 0;
    assert(steps@.skip(0) =~= steps@);
    while i < steps.len()
        invariant
            i <= steps.len(),
            first_stored(steps@) == first_stored(steps@.skip(i as int)),
        decreases steps.len() - i,
    {
        assert(steps@.skip(i as int).drop_first() =~= steps@.skip(i + 1));
        assert(steps@.skip(i as int)[0] == steps@[i as int]);
        match &steps[i] {
            ExportStep::Stored(id) => return Some(id),
            ExportStep::Skipped(_) => {},
        }
        i = i + 1;
    }
    assert(steps@.skip(steps.len() as int) =~= Seq::<ExportStep>::empty());
    None
}

/// Finishes an export: an error where no profile was stored; else the
/// accounts file with its active account set (when overwriting, or when it
/// had none) to the one the current login picks, with the first stored
/// account as the fallback, and the line that reports the export.
pub fn finish_export(outcome: ExportOutcome, overwrite: bool, current_auth: Option<&AuthFile>) -> (res:
    Result<(AccountsFile, String), String>)
    ensures
        outcome.exported == 0 ==> (res matches Err(e) && e@
            == "Error: no valid profiles to export."@),
        outcome.exported > 0 ==> (res matches Ok((d, line)) && line@ == summary_text(
            "Exported"@,
            outcome.exported as nat,
            outcome.skipped as nat,
        ) && d.version == outcome.data.version && d.accounts == outcome.data.accounts && ({
            let active = active_account_of(
                outcome.data.accounts@,
                match current_auth {
                    Some(a) => Some(*a),
                    None => None,
                },
                first_stored(outcome.steps@),
            );
            if (overwrite || outcome.data.active_account_id is None) && active is Some {
                opt_seq(d.active_account_id) == active
            } else {
                d.active_account_id == outcome.data.active_account_id
            }
        })),
{
    if outcome.exported == 0 {
        return Err(owned("Error: no valid profiles to export."));
    }
    let line = summary_line("Exported", outcome.exported, outcome.skipped);
    let ExportOutcome { data, steps, .. } = outcome;
    let mut data = data;
    if overwrite || data.active_account_id.is_none() {
        let fallback = first_stored_exec(steps.as_slice());
        let active = resolve_active_account_id(
            &data,
            current_auth,
            match fallback {
                Some(f) => Some(f.as_str()),
                None => None,
            },
        );
        if active.is_some() {
            data.active_account_id = active;
        }
    }
    Ok((data, line))
}

/// What an import does with an account: makes an API-key profile, makes a
/// ChatGPT profile from its tokens, or skips it with a warning.
#[derive(Debug)]
pub enum ImportAction {
    ApiKey { api_key: String },
    Chatgpt { tokens: Tokens },
    Skip { warning: String },
}

/// An account's mode, trimmed and in ASCII lowercase (empty where it has
/// none).
pub open spec fn mode_text(mode: Option<String>) -> Seq<char> {
    match mode {
        Some(m) => crate::text::lower_seq(trim_seq(m@)),
        None => Seq::empty(),
    }
}

/// What an import does with an account: an API-key account with its key,
/// a ChatGPT account with its tokens, or a skip with its warning.
pub open spec fn classified(
    account: StoredAccountRaw,
    ui: crate::ui::Ui,
    use_color: bool,
    res: ImportAction,
) -> bool {
    let mode = mode_text(account.mode);
    if mode == "apikey"@ {
        match filled(account.openai_api_key) {
            Some(k) => res matches ImportAction::ApiKey { api_key } && api_key@ == k,
            None => res matches ImportAction::Skip { warning } && warns(
                warning@,
                ui,
                use_color,
                "Skipping API key account missing key value"@,
            ),
        }
    } else if mode == "chatgpt"@ {
        match account.tokens {
            None => res matches ImportAction::Skip { warning } && warns(
                warning@,
                ui,
                use_color,
                "Skipping ChatGPT account missing tokens"@,
            ),
            Some(t) => match everycode_tokens_error(t) {
                Some(m) => res matches ImportAction::Skip { warning } && warns(
                    warning@,
                    ui,
                    use_color,
                    crate::ui::normalized_error(m),
                ),
                None => res matches ImportAction::Chatgpt { tokens } && opt_seq(
                    tokens.account_id,
                ) == opt_seq(t.account_id) && opt_seq(tokens.id_token) == Some(
                    t.id_token@,
                ) && opt_seq(tokens.access_token) == Some(t.access_token@) && opt_seq(
                    tokens.refresh_token,
                ) == Some(t.refresh_token@),
            },
        }
    } else {
        res matches ImportAction::Skip { warning } && warns(
            warning@,
            ui,
            use_color,
            "Skipping unsupported account mode in Every Code accounts"@,
        )
    }
}

/// What an import does with an account.
pub fn classify_import(account: &StoredAccountRaw, ui: &crate::ui::Ui, use_color: bool) -> (res:
    ImportAction)
    ensures
        classified(*account, *ui, use_color, res),
{
    let mode = match &account.mode {
        Some(m) => crate::text::to_ascii_lowercase(trim_str(m.as_str()).as_str()),
        None => String::new(),
    };
    proof {
        reveal_strlit("apikey");
        reveal_strlit("chatgpt");
        if account.mode is None {
            assert(mode@ =~= Seq::<char>::empty());
        }
    }
    if str_eq(mode.as_str(), "apikey") {
        return match filled_exec(&account.openai_api_key) {
            Some(k) => ImportAction::ApiKey { api_key: k },
            None => ImportAction::Skip {
                warning: ui.format_warning("Skipping API key account missing key value", use_color),
            },
        };
    }
    if str_eq(mode.as_str(), "chatgpt") {
        return match &account.tokens {
            None => ImportAction::Skip {
                warning: ui.format_warning("Skipping ChatGPT account missing tokens", use_color),
            },
            Some(t) => match build_tokens_from_everycode(t) {
                Ok(tokens) => ImportAction::Chatgpt { tokens },
                Err(e) => {
                    let m = crate::ui::normalize_error(e.as_str());
                    ImportAction::Skip { warning: ui.format_warning(m.as_str(), use_color) }
                },
            },
        };
    }
    ImportAction::Skip {
        warning: ui.format_warning(
            "Skipping unsupported account mode in Every Code accounts",
            use_color,
        ),
    }
}

/// Why an import stops before it reads any account: the accounts file
/// has none.
pub fn import_precheck(data: &AccountsFileRaw, path: &str) -> (res: Result<(), String>)
    ensures
        data.accounts.len() == 0 ==> (res matches Err(e) && e@ == "Error: no accounts found in "@
            + path@),
        data.accounts.len() > 0 ==> res is Ok,
{
    if data.accounts.len() == 0 {
        return Err(concat("Error: no accounts found in ", path));
    }
    Ok(())
}

/// How many actions save a profile.
pub open spec fn saving_count(actions: Seq<ImportAction>) -> nat
    decreases actions.len(),
{
    if actions.len() == 0 {
        0
    } else {
        saving_count(actions.drop_last()) + if actions.last() is Skip {
            0nat
        } else {
            1nat
        }
    }
}

/// What an import does with each account of the file, and how many
/// accounts it saves and skips.
#[derive(Debug)]
pub struct ImportPlan {
    pub actions: Vec<ImportAction>,
    pub imported: usize,
    pub skipped: usize,
}

/// Plans an import: each account classified as `classify_import` does, in
/// the file's order, with the counts of the saved and skipped accounts.
pub fn plan_import(data: &AccountsFileRaw, ui: &crate::ui::Ui, use_color: bool) -> (res: ImportPlan)
    ensures
        res.actions.len() == data.accounts.len(),
        forall|i: int|
            0 <= i < data.accounts.len() ==> classified(
                #[trigger] data.accounts@[i],
                *ui,
                use_color,
                res.actions@[i],
            ),
        res.imported == saving_count(res.actions@),
        res.imported + res.skipped == data.accounts.len(),
{
    let mut actions: Vec<ImportAction> = Vec::new();
    let mut imported: usize = 0;
    let mut skipped: usize = 0;
    let mut i: usize = 0;
    while i < data.accounts.len()
        invariant
            i <= data.accounts.len(),
            actions.len() == i,
            forall|k: int|
                0 <= k < i ==> classified(
                    #[trigger] data.accounts@[k],
                    *ui,
                    use_color,
                    actions@[k],
                ),
            imported == saving_count(actions@),
            imported + skipped == i,
        decreases data.accounts.len() - i,
    {
        let action = classify_import(&data.accounts[i], ui, use_color);
        if matches!(action, ImportAction::Skip { .. }) {
            skipped = skipped + 1;
        } else {
            imported = imported + 1;
        }
        let ghost before = actions@;
        let ghost ga = action;
        actions.push(action);
        proof {
            assert(actions@.drop_last() =~= before);
            assert(actions@[i as int] == ga);
        }
        i = i + 1;
    }
    ImportPlan { actions, imported, skipped }
}

/// How an import ends: an error where no account was saved, else the
/// summary line.
pub fn finish_import(imported: usize, skipped: usize) -> (res: Result<String, String>)
    ensures
        imported == 0 ==> (res matches Err(e) && e@ == "Error: no valid accounts to import."@),
        imported > 0 ==> (res matches Ok(line) && line@ == summary_text(
            "Imported"@,
            imported as nat,
            skipped as nat,
        )),
{
    if imported == 0 {
        return Err(owned("Error: no valid accounts to import."));
    }
    Ok(summary_line("Imported", imported, skipped))
}

/// The Every Code home directory: the one given (not empty), else
/// `CODE_HOME` where it is set and not empty, else `.code` in the home
/// directory.
pub open spec fn code_home_of(
    given: Option<Seq<char>>,
    env_code_home: Option<Seq<char>>,
    home: Option<Seq<char>>,
) -> Result<Seq<char>, Seq<char>> {
    match given {
        Some(g) => if g.len() == 0 {
            Err("Error: code home cannot be empty"@)
        } else {
            Ok(g)
        },
        None => match env_code_home {
            Some(e) if e.len() > 0 => Ok(e),
            _ => match home {
                Some(h) => Ok(crate::profile_store::path_join(h, ".code"@)),
                None => Err("Error: could not resolve home directory for CODE_HOME"@),
            },
        },
    }
}

/// The Every Code home directory.
pub fn resolve_code_home(given: Option<&str>, env_code_home: Option<&str>, home: Option<&str>) -> (res:
    Result<String, String>)
    ensures
        match code_home_of(
            match given {
                Some(g) => Some(g@),
                None => None,
            },
            match env_code_home {
                Some(e) => Some(e@),
                None => None,
            },
            match home {
                Some(h) => Some(h@),
                None => None,
            },
        ) {
            Ok(p) => res matches Ok(r) && r@ == p,
            Err(m) => res matches Err(e) && e@ == m,
        },
{
    if let Some(g) = given {
        if g.is_empty() {
            return Err(owned("Error: code home cannot be empty"));
        }
        return Ok(owned(g));
    }
    if let Some(e) = env_code_home {
        if !e.is_empty() {
            return Ok(owned(e));
        }
    }
    match home {
        Some(h) => Ok(crate::common::join_path(h, ".code")),
        None => Err(owned("Error: could not resolve home directory for CODE_HOME")),
    }
}

/// The path of the accounts file in the Every Code home directory.
pub fn accounts_path(code_home: &str) -> (res: String)
    ensures
        res@ == crate::profile_store::path_join(code_home@, accounts_file_name()),
{
    proof {
        reveal_strlit("auth_accounts.json");
    }
    crate::common::join_path(code_home, "auth_accounts.json")
}

} // verus!
