//! Saved-login identity: tokens, API-key profiles, and the email and plan that
//! an id token carries.
use base64::Engine;
use serde_json::Value as Json;
use vstd::prelude::*;

use crate::num::{hex_lower_chars, hex_lower_seq};
use crate::text::{
    ascii_upper, ascii_upper_exec, chars_of, eq_ignore_case, is_ascii_alnum, is_ascii_alnum_exec,
    is_prefix, owned, push_chars, starts_with, str_eq_ignore_case, string_of,
};

verus! {

/// The OAuth tokens of a Codex login (`auth.json` → `tokens`). An empty
/// string in the file reads as an absent value.
#[derive(Clone, Debug)]
pub struct Tokens {
    pub account_id: Option<String>,
    pub id_token: Option<String>,
    pub access_token: Option<String>,
    pub refresh_token: Option<String>,
}

/// The contents of a Codex `auth.json` file.
#[derive(Debug)]
pub struct AuthFile {
    pub openai_api_key: Option<String>,
    pub tokens: Option<Tokens>,
    pub last_refresh: Option<String>,
}

/// The reply of the token endpoint to a refresh request.
#[derive(Clone, Debug)]
pub struct RefreshResponse {
    pub id_token: Option<String>,
    pub access_token: Option<String>,
    pub refresh_token: Option<String>,
}

/// The characters of an optional string.
pub open spec fn opt_seq(o: Option<String>) -> Option<Seq<char>> {
    match o {
        Some(s) => Some(s@),
        None => None,
    }
}

/// An optional string that is present and not empty.
pub open spec fn non_empty(o: Option<Seq<char>>) -> Option<Seq<char>> {
    match o {
        Some(s) => if s.len() > 0 {
            Some(s)
        } else {
            None
        },
        None => None,
    }
}

/// The marker that starts the account id of an API-key login.
pub open spec fn api_key_marker() -> Seq<char> {
    seq!['a', 'p', 'i', '-', 'k', 'e', 'y', '-']
}

/// The plan and fallback display label of an API-key login.
pub open spec fn key_label() -> Seq<char> {
    seq!['K', 'e', 'y']
}

// ---------------------------------------------------------------------------
// Outside calls
// ---------------------------------------------------------------------------

/// What `base64::engine::general_purpose::URL_SAFE_NO_PAD.decode` returns for
/// a text: the decoded bytes, or `None` where the text is not valid unpadded
/// URL-safe base64.
pub uninterp spec fn base64_url_no_pad_decode(text: Seq<char>) -> Option<Seq<u8>>;

/// What `serde_json` reads from an id-token payload: `None` where the bytes
/// are not JSON; otherwise the claim at the email key and the claim at the
/// auth key. A claim is `None` where it is missing or
/// null, `Some(None)` where it has another type than expected, and `Some(Some(..))`
/// where it has the expected type: a string for `email`, and for the auth
/// claim an object, with its claim at the plan key read the same way.
pub uninterp spec fn id_token_claims(payload: Seq<u8>, email_key: Seq<char>, auth_key: Seq<char>, plan_key: Seq<char>) -> Option<(Option<Option<Seq<char>>>, Option<Option<Option<Option<Seq<char>>>>>)>;

/// The claims of an id token: `email`, and `chatgpt_plan_type` in the
/// `https://api.openai.com/auth` object.
pub open spec fn token_claims_of(payload: Seq<u8>) -> Option<(Option<Option<Seq<char>>>, Option<Option<Option<Option<Seq<char>>>>>)> {
    id_token_claims(payload, "email"@, "https://api.openai.com/auth"@, "chatgpt_plan_type"@)
}

/// What `char::to_lowercase` yields for a character.
pub uninterp spec fn char_to_lowercase(c: char) -> Seq<char>;

/// Calls `URL_SAFE_NO_PAD.decode` of the `base64` crate. Trusted: the result
/// is the name `base64_url_no_pad_decode` applied to the text.
#[verifier::external_body]
pub(crate) fn decode_base64_url(text: &str) -> (res: Option<Vec<u8>>)
    ensures
        match res {
            Some(v) => base64_url_no_pad_decode(text@) == Some(v@),
            None => base64_url_no_pad_decode(text@) is None,
        },
{
    base64::engine::general_purpose::URL_SAFE_NO_PAD.decode(text).ok()
}

/// A claim as read: missing or null, of another type, or a string.
pub open spec fn text_claim(o: Option<Option<String>>) -> Option<Option<Seq<char>>> {
    match o {
        None => None,
        Some(None) => Some(None),
        Some(Some(s)) => Some(Some(s@)),
    }
}

/// Calls `serde_json::from_slice` into a `serde_json::Value` and reads the
/// claim at the email key and the claim at the plan key of the object at the
/// auth key from it with `Value::get`, telling the value's variants apart.
/// Trusted: the result is the name `id_token_claims` applied to the bytes
/// and the keys.
#[verifier::external_body]
pub(crate) fn read_id_token_claims(payload: &[u8], email_key: &str, auth_key: &str, plan_key: &str) -> (res: Option<(Option<Option<String>>, Option<Option<Option<Option<String>>>>)>)
    ensures
        match res {
            Some((e, a)) => id_token_claims(payload@, email_key@, auth_key@, plan_key@) == Some((text_claim(e), match a {
                None => None,
                Some(None) => Some(None),
                Some(Some(p)) => Some(Some(text_claim(p))),
            })),
            None => id_token_claims(payload@, email_key@, auth_key@, plan_key@) is None,
        },
{
    let value: Json = serde_json::from_slice(payload).ok()?;
    let text = |v: Option<&Json>| match v {
        None | Some(Json::Null) => None,
        Some(Json::String(s)) => Some(Some(s.clone())),
        Some(_) => Some(None),
    };
    let auth = match value.get(auth_key) {
        None | Some(Json::Null) => None,
        Some(Json::Object(m)) => Some(Some(text(m.get(plan_key)))),
        Some(_) => Some(None),
    };
    Some((text(value.get(email_key)), auth))
}

/// Calls `char::to_lowercase` and collects the characters. Trusted: the
/// result is the name `char_to_lowercase` applied to the character, and an
/// ASCII character maps to its ASCII lowercase form, as the documentation of
/// `char::to_lowercase` states.
#[verifier::external_body]
fn lowercase_chars(c: char) -> (res: Vec<char>)
    ensures
        res@ == char_to_lowercase(c),
        (c as u32) < 128 ==> res@ == seq![crate::text::ascii_lower(c)],
{
    c.to_lowercase().collect()
}

// ---------------------------------------------------------------------------
// API-key profiles
// ---------------------------------------------------------------------------

/// A character of an API key as kept in the profile id.
pub open spec fn api_key_safe_char(c: char) -> char {
    if is_ascii_alnum(c) || c == '-' || c == '_' || c == '.' {
        c
    } else {
        '-'
    }
}

/// The first twelve characters of an API key, with every character that is not
/// ASCII alphanumeric, `-`, `_` or `.` replaced by `-`.
pub open spec fn api_key_prefix_seq(key: Seq<char>) -> Seq<char> {
    let n = if key.len() < 12 {
        key.len()
    } else {
        12
    };
    key.take(n as int).map_values(|c: char| api_key_safe_char(c))
}

/// The FNV-1a offset basis.
pub open spec fn fnv_offset() -> u64 {
    0xcbf29ce484222325
}

/// The FNV-1a prime.
pub open spec fn fnv_prime() -> u64 {
    0x100000001b3
}

/// One FNV-1a step: xor in the byte, then multiply modulo 2^64.
pub open spec fn fnv_step(h: u64, b: u8) -> u64 {
    vstd::wrapping::u64_specs::wrapping_mul(h ^ (b as u64), fnv_prime())
}

/// The 64-bit FNV-1a hash of a byte sequence.
pub open spec fn fnv1a(bytes: Seq<u8>) -> u64
    decreases bytes.len(),
{
    if bytes.len() == 0 {
        fnv_offset()
    } else {
        fnv_step(fnv1a(bytes.drop_last()), bytes.last())
    }
}

/// The UTF-8 bytes of a string.
pub open spec fn utf8_bytes(s: Seq<char>) -> Seq<u8> {
    vstd::utf8::encode_utf8(s)
}

/// The profile id of an API-key login:
/// `api-key-{prefix}~{hash}`, where the hash is the FNV-1a hash of the key's
/// UTF-8 bytes as sixteen lowercase hexadecimal digits.
pub open spec fn api_key_profile_id_seq(key: Seq<char>) -> Seq<char> {
    api_key_marker() + api_key_prefix_seq(key) + seq!['~'] + hex_lower_seq(
        fnv1a(utf8_bytes(key)) as nat,
        16,
    )
}

fn api_key_safe_char_exec(c: char) -> (res: char)
    ensures
        res == api_key_safe_char(c),
{
    if is_ascii_alnum_exec(c) || c == '-' || c == '_' || c == '.' {
        c
    } else {
        '-'
    }
}

fn api_key_prefix(key: &[char]) -> (res: Vec<char>)
    ensures
        res@ == api_key_prefix_seq(key@),
{
    let n: usize = if key.len() < 12 {
        key.len()
    } else {
        12
    };
    let mut out: Vec<char> = Vec::new();
    let mut i: usize = 0;
    while i < n
        invariant
            n <= key.len(),
            n == (if key@.len() < 12 {
                key@.len()
            } else {
                12
            }),
            i <= n,
            out@ == key@.take(i as int).map_values(|c: char| api_key_safe_char(c)),
        decreases n - i,
    {
        out.push(api_key_safe_char_exec(key[i]));
        i = i + 1;
        assert(out@ =~= key@.take(i as int).map_values(|c: char| api_key_safe_char(c)));
    }
    out
}

fn fnv1a_exec(bytes: &[u8]) -> (res: u64)
    ensures
        res == fnv1a(bytes@),
{
    let mut h: u64 = 0xcbf29ce484222325;
    let mut i: usize = 0;
    while i < bytes.len()
        invariant
            i <= bytes.len(),
            h == fnv1a(bytes@.take(i as int)),
        decreases bytes.len() - i,
    {
        assert(bytes@.take(i + 1).drop_last() =~= bytes@.take(i as int));
        h = (h ^ (bytes[i] as u64)).wrapping_mul(0x100000001b3);
        i = i + 1;
    }
    assert(bytes@.take(bytes.len() as int) =~= bytes@);
    h
}

/// The marker `api-key-`, as characters.
fn api_key_marker_chars() -> (res: Vec<char>)
    ensures
        res@ == api_key_marker(),
{
    let v = chars_of("api-key-");
    proof {
        reveal_strlit("api-key-");
    }
    assert(v@ =~= api_key_marker());
    v
}

/// The profile id under which an API-key login is saved.
pub fn api_key_profile_id(api_key: &str) -> (res: String)
    ensures
        res@ == api_key_profile_id_seq(api_key@),
{
    let key = chars_of(api_key);
    let mut out = string_of(&api_key_marker_chars());
    let prefix = api_key_prefix(&key);
    push_chars(&mut out, &prefix);
    out.push('~');
    let hash = fnv1a_exec(api_key.as_bytes());
    let hex = hex_lower_chars(hash, 16);
    push_chars(&mut out, &hex);
    assert(out@ =~= api_key_profile_id_seq(api_key@));
    out
}

/// The tokens that stand for an API-key login: only an account id, derived
/// from the key.
pub fn tokens_from_api_key(api_key: &str) -> (res: Tokens)
    ensures
        opt_seq(res.account_id) == Some(api_key_profile_id_seq(api_key@)),
        res.id_token is None,
        res.access_token is None,
        res.refresh_token is None,
{
    Tokens {
        account_id: Some(api_key_profile_id(api_key)),
        id_token: None,
        access_token: None,
        refresh_token: None,
    }
}

/// Whether the tokens stand for an API-key login: an account id that starts
/// with `api-key-`, and no id, access or refresh token.
pub open spec fn is_api_key_tokens(t: Tokens) -> bool {
    &&& t.account_id matches Some(a) && is_prefix(api_key_marker(), a@)
    &&& t.id_token is None
    &&& t.access_token is None
    &&& t.refresh_token is None
}

/// Whether the tokens stand for an API-key login.
pub fn is_api_key_profile(tokens: &Tokens) -> (res: bool)
    ensures
        res == is_api_key_tokens(*tokens),
{
    let marked = match &tokens.account_id {
        Some(a) => {
            let v = chars_of(a.as_str());
            starts_with(&v, &api_key_marker_chars())
        },
        None => false,
    };
    marked && tokens.id_token.is_none() && tokens.access_token.is_none()
        && tokens.refresh_token.is_none()
}

/// The account id, where it is present and not empty.
pub open spec fn account_id_of(t: Tokens) -> Option<Seq<char>> {
    non_empty(opt_seq(t.account_id))
}

/// The account id of the tokens, where it is present and not empty.
pub fn token_account_id(tokens: &Tokens) -> (res: Option<&str>)
    ensures
        match res {
            Some(s) => account_id_of(*tokens) == Some(s@),
            None => account_id_of(*tokens) is None,
        },
{
    match &tokens.account_id {
        Some(a) => {
            let s = a.as_str();
            if chars_of(s).len() > 0 {
                Some(s)
            } else {
                None
            }
        },
        None => None,
    }
}

/// The display label of an API-key account id `api-key-{prefix}~{hash}`:
/// `~` followed by the last sixteen characters of the hash; `None` where the
/// id has no such shape, the prefix is empty, or the hash is empty.
pub open spec fn api_key_display_seq(account_id: Seq<char>) -> Option<Seq<char>> {
    if !is_prefix(api_key_marker(), account_id) {
        None
    } else {
        let rest = account_id.skip(8);
        match crate::text::split_once_seq(rest, '~') {
            None => None,
            Some((prefix, hash)) => {
                let n = if hash.len() < 16 {
                    hash.len()
                } else {
                    16
                };
                if prefix.len() == 0 || n == 0 {
                    None
                } else {
                    Some(seq!['~'] + hash.skip(hash.len() - n))
                }
            },
        }
    }
}

fn api_key_display_label(tokens: &Tokens) -> (res: Option<String>)
    ensures
        match tokens.account_id {
            Some(a) => opt_seq(res) == api_key_display_seq(a@),
            None => res is None,
        },
{
    let a = match &tokens.account_id {
        Some(a) => chars_of(a.as_str()),
        None => return None,
    };
    let marker = api_key_marker_chars();
    if !starts_with(&a, &marker) {
        return None;
    }
    let rest = crate::text::slice_range(&a, 8, a.len());
    assert(rest@ =~= a@.skip(8));
    match crate::text::split_once_chars(&rest, '~') {
        None => None,
        Some((prefix, hash)) => {
            let n: usize = if hash.len() < 16 {
                hash.len()
            } else {
                16
            };
            if prefix.len() == 0 || n == 0 {
                None
            } else {
                let tail = crate::text::slice_range(&hash, hash.len() - n, hash.len());
                let mut out = String::new();
                out.push('~');
                push_chars(&mut out, &tail);
                assert(tail@ =~= hash@.skip(hash@.len() - n));
                assert(out@ =~= seq!['~'] + hash@.skip(hash@.len() - n));
                Some(out)
            }
        },
    }
}

// ---------------------------------------------------------------------------
// Plans
// ---------------------------------------------------------------------------

/// A word with its first character in ASCII uppercase and every later
/// character lowercased as `char::to_lowercase` does.
pub open spec fn title_case_seq(w: Seq<char>) -> Seq<char> {
    if w.len() == 0 {
        Seq::empty()
    } else {
        seq![ascii_upper(w[0])] + lower_all(w.drop_first())
    }
}

/// What `char::to_lowercase` yields: the ASCII lowercase form of an ASCII
/// character, and `char_to_lowercase` of any other.
pub open spec fn char_lower(c: char) -> Seq<char> {
    if (c as u32) < 128 {
        seq![crate::text::ascii_lower(c)]
    } else {
        char_to_lowercase(c)
    }
}

/// Every character lowercased as `char::to_lowercase` does.
pub open spec fn lower_all(s: Seq<char>) -> Seq<char>
    decreases s.len(),
{
    if s.len() == 0 {
        Seq::empty()
    } else {
        lower_all(s.drop_last()) + char_lower(s.last())
    }
}

/// Whether a character separates the words of a plan name.
pub open spec fn is_plan_sep(c: char) -> bool {
    c == '_' || c == '-'
}

/// The word that the text ends in: what follows its last separator.
pub open spec fn open_word(s: Seq<char>) -> Seq<char>
    decreases s.len(),
{
    if s.len() == 0 {
        Seq::empty()
    } else if is_plan_sep(s.last()) {
        Seq::empty()
    } else {
        open_word(s.drop_last()).push(s.last())
    }
}

/// Appends a word to the display text: nothing for an empty word, else the
/// word title-cased, after a space where the text is not empty.
pub open spec fn join_word(out: Seq<char>, w: Seq<char>) -> Seq<char> {
    if w.len() == 0 {
        out
    } else if out.len() == 0 {
        title_case_seq(w)
    } else {
        out + seq![' '] + title_case_seq(w)
    }
}

/// The display text of the words of `s` that a separator has closed.
pub open spec fn closed_words_text(s: Seq<char>) -> Seq<char>
    decreases s.len(),
{
    if s.len() == 0 {
        Seq::empty()
    } else if is_plan_sep(s.last()) {
        join_word(closed_words_text(s.drop_last()), open_word(s.drop_last()))
    } else {
        closed_words_text(s.drop_last())
    }
}

/// The plan name split at `_` and `-`, empty words dropped, each word
/// title-cased, joined by single spaces.
pub open spec fn plan_words_text(s: Seq<char>) -> Seq<char> {
    join_word(closed_words_text(s), open_word(s))
}

/// `format_plan`: the plan's words title-cased and joined by spaces, or
/// `Unknown` where the plan has no word.
pub open spec fn format_plan_seq(plan: Seq<char>) -> Seq<char> {
    let out = plan_words_text(plan);
    if out.len() == 0 {
        seq!['U', 'n', 'k', 'n', 'o', 'w', 'n']
    } else {
        out
    }
}

fn lower_all_chars(s: &[char]) -> (res: Vec<char>)
    ensures
        res@ == lower_all(s@),
{
    let mut out: Vec<char> = Vec::new();
    let mut i: usize = 0;
    while i < s.len()
        invariant
            i <= s.len(),
            out@ == lower_all(s@.take(i as int)),
        decreases s.len() - i,
    {
        assert(s@.take(i + 1).drop_last() =~= s@.take(i as int));
        let low = lowercase_chars(s[i]);
        let mut j: usize = 0;
        let ghost before = out@;
        while j < low.len()
            invariant
                j <= low.len(),
                out@ == before + low@.take(j as int),
            decreases low.len() - j,
        {
            out.push(low[j]);
            j = j + 1;
            assert(out@ =~= before + low@.take(j as int));
        }
        assert(low@.take(low.len() as int) =~= low@);
        i = i + 1;
    }
    assert(s@.take(s.len() as int) =~= s@);
    out
}

/// A word with its first character in ASCII uppercase and the rest lowercased.
fn title_case(word: &[char]) -> (res: Vec<char>)
    ensures
        res@ == title_case_seq(word@),
{
    if word.len() == 0 {
        return Vec::new();
    }
    let mut out: Vec<char> = Vec::new();
    out.push(ascii_upper_exec(word[0]));
    let rest = crate::text::slice_range(word, 1, word.len());
    assert(rest@ =~= word@.drop_first());
    let low = lower_all_chars(&rest);
    let mut j: usize = 0;
    while j < low.len()
        invariant
            j <= low.len(),
            out@ == seq![ascii_upper(word@[0])] + low@.take(j as int),
        decreases low.len() - j,
    {
        out.push(low[j]);
        j = j + 1;
        assert(out@ =~= seq![ascii_upper(word@[0])] + low@.take(j as int));
    }
    assert(low@.take(low.len() as int) =~= low@);
    out
}

fn join_word_exec(out: &mut Vec<char>, w: &[char])
    ensures
        final(out)@ == join_word(old(out)@, w@),
{
    if w.len() == 0 {
        return;
    }
    if out.len() > 0 {
        out.push(' ');
    }
    let t = title_case(w);
    let ghost mid = out@;
    let mut j: usize = 0;
    while j < t.len()
        invariant
            j <= t.len(),
            out@ == mid + t@.take(j as int),
        decreases t.len() - j,
    {
        out.push(t[j]);
        j = j + 1;
        assert(out@ =~= mid + t@.take(j as int));
    }
    assert(t@.take(t.len() as int) =~= t@);
}

/// The plan name for display: split at `_` and `-`, empty words dropped, each
/// word with an uppercase first letter and lowercase rest, joined by spaces;
/// `Unknown` where no word is left.
pub fn format_plan(plan: &str) -> (res: String)
    ensures
        res@ == format_plan_seq(plan@),
{
    let s = chars_of(plan);
    let mut out: Vec<char> = Vec::new();
    let mut word: Vec<char> = Vec::new();
    let mut i: usize = 0;
    while i < s.len()
        invariant
            i <= s.len(),
            out@ == closed_words_text(s@.take(i as int)),
            word@ == open_word(s@.take(i as int)),
        decreases s.len() - i,
    {
        assert(s@.take(i + 1).drop_last() =~= s@.take(i as int));
        let c = s[i];
        if c == '_' || c == '-' {
            join_word_exec(&mut out, &word);
            word = Vec::new();
        } else {
            word.push(c);
        }
        i = i + 1;
    }
    assert(s@.take(s.len() as int) =~= s@);
    join_word_exec(&mut out, &word);
    if out.len() == 0 {
        let u = owned("Unknown");
        proof {
            reveal_strlit("Unknown");
        }
        assert(u@ =~= seq!['U', 'n', 'k', 'n', 'o', 'w', 'n']);
        u
    } else {
        string_of(&out)
    }
}

/// Whether the plan is `free`, in any ASCII case.
pub fn is_free_plan(plan: Option<&str>) -> (res: bool)
    ensures
        res == (match plan {
            Some(p) => eq_ignore_case(p@, seq!['f', 'r', 'e', 'e']),
            None => false,
        }),
{
    match plan {
        Some(p) => {
            let r = str_eq_ignore_case(p, "free");
            proof {
                reveal_strlit("free");
            }
            assert("free"@ =~= seq!['f', 'r', 'e', 'e']);
            r
        },
        None => false,
    }
}

// ---------------------------------------------------------------------------
// Identity from the id token
// ---------------------------------------------------------------------------

/// The payload part of a JWT: the text between its first and second `.`;
/// `None` where the token has fewer than two dots.
pub open spec fn jwt_payload(token: Seq<char>) -> Option<Seq<char>> {
    match crate::text::split_once_seq(token, '.') {
        None => None,
        Some((_h, rest)) => match crate::text::split_once_seq(rest, '.') {
            None => None,
            Some((payload, _sig)) => Some(payload),
        },
    }
}

/// A claim read as an optional string: `None` where it is missing or null,
/// and no value at all (the whole payload rejected) where it has another
/// type.
pub open spec fn typed_text(c: Option<Option<Seq<char>>>) -> Option<Option<Seq<char>>> {
    match c {
        None => Some(None),
        Some(None) => None,
        Some(Some(s)) => Some(Some(s)),
    }
}

/// The email and raw plan claims of a payload read into the typed claims of
/// an id token: `None` where a claim has the wrong type (the email or plan
/// not a string, the auth claim not an object), as a typed read rejects it.
pub open spec fn typed_claims(
    raw: Option<(Option<Option<Seq<char>>>, Option<Option<Option<Option<Seq<char>>>>>)>,
) -> Option<(Option<Seq<char>>, Option<Seq<char>>)> {
    match raw {
        None => None,
        Some((e, a)) => match typed_text(e) {
            None => None,
            Some(email) => match a {
                None => Some((email, None)),
                Some(None) => None,
                Some(Some(p)) => match typed_text(p) {
                    None => None,
                    Some(plan) => Some((email, plan)),
                },
            },
        },
    }
}

/// The email and raw plan claims of an id token; both `None` where the token
/// does not decode to a payload with claims of the expected types.
pub open spec fn token_claims(token: Seq<char>) -> (Option<Seq<char>>, Option<Seq<char>>) {
    match jwt_payload(token) {
        None => (None, None),
        Some(p) => match base64_url_no_pad_decode(p) {
            None => (None, None),
            Some(bytes) => match typed_claims(token_claims_of(bytes)) {
                None => (None, None),
                Some((e, pl)) => (non_empty(e), non_empty(pl)),
            },
        },
    }
}

/// The plan text as shown.
pub open spec fn formatted(o: Option<Seq<char>>) -> Option<Seq<char>> {
    match o {
        Some(p) => Some(format_plan_seq(p)),
        None => None,
    }
}

/// The email and plan of a login: for an API-key login, its display label
/// (or `Key`) and `Key`; otherwise the email and formatted plan of the id
/// token.
pub open spec fn email_and_plan(t: Tokens) -> (Option<Seq<char>>, Option<Seq<char>>) {
    if is_api_key_tokens(t) {
        let display = match api_key_display_seq(t.account_id.unwrap()@) {
            Some(d) => d,
            None => key_label(),
        };
        (Some(display), Some(key_label()))
    } else {
        match t.id_token {
            None => (None, None),
            Some(tok) => {
                let (e, p) = token_claims(tok@);
                (e, formatted(p))
            },
        }
    }
}

fn non_empty_string(o: Option<String>) -> (res: Option<String>)
    ensures
        opt_seq(res) == non_empty(opt_seq(o)),
{
    match o {
        Some(s) => {
            if chars_of(s.as_str()).len() > 0 {
                Some(s)
            } else {
                None
            }
        },
        None => None,
    }
}

fn decode_id_token_claims(token: &str) -> (res: (Option<String>, Option<String>))
    ensures
        (opt_seq(res.0), opt_seq(res.1)) == token_claims(token@),
{
    let t = chars_of(token);
    let rest = match crate::text::split_once_chars(&t, '.') {
        Some((_h, rest)) => rest,
        None => return (None, None),
    };
    let payload = match crate::text::split_once_chars(&rest, '.') {
        Some((p, _sig)) => p,
        None => return (None, None),
    };
    let payload_str = string_of(&payload);
    let bytes = match decode_base64_url(payload_str.as_str()) {
        Some(b) => b,
        None => return (None, None),
    };
    let (e, a) = match read_id_token_claims(bytes.as_slice(), "email", "https://api.openai.com/auth", "chatgpt_plan_type") {
        None => return (None, None),
        Some(c) => c,
    };
    let email = match e {
        None => None,
        Some(None) => return (None, None),
        Some(Some(s)) => Some(s),
    };
    let plan = match a {
        None => None,
        Some(None) => return (None, None),
        Some(Some(None)) => None,
        Some(Some(Some(None))) => return (None, None),
        Some(Some(Some(Some(s)))) => Some(s),
    };
    (non_empty_string(email), non_empty_string(plan))
}

/// The email and plan shown for a login. An API-key login shows its key label
/// (`~` and the end of the key hash, or `Key`) and the plan `Key`; any other
/// login shows the email and formatted plan of its id token, each `None` where
/// the token lacks it or cannot be decoded.
pub fn extract_email_and_plan(tokens: &Tokens) -> (res: (Option<String>, Option<String>))
    ensures
        (opt_seq(res.0), opt_seq(res.1)) == email_and_plan(*tokens),
{
    if is_api_key_profile(tokens) {
        let display = match api_key_display_label(tokens) {
            Some(d) => d,
            None => key_label_string(),
        };
        return (Some(display), Some(key_label_string()));
    }
    match &tokens.id_token {
        None => (None, None),
        Some(tok) => {
            let (e, p) = decode_id_token_claims(tok.as_str());
            let plan = match p {
                Some(p) => Some(format_plan(p.as_str())),
                None => None,
            };
            (e, plan)
        },
    }
}

fn key_label_string() -> (res: String)
    ensures
        res@ == key_label(),
{
    let s = owned("Key");
    proof {
        reveal_strlit("Key");
    }
    assert(s@ =~= key_label());
    s
}

/// Whether a saved login can be used: an API-key login, or one with an
/// account id, a non-empty access token, and an email and plan.
pub open spec fn profile_ready(t: Tokens) -> bool {
    is_api_key_tokens(t) || {
        &&& account_id_of(t) is Some
        &&& non_empty(opt_seq(t.access_token)) is Some
        &&& email_and_plan(t).0 is Some
        &&& email_and_plan(t).1 is Some
    }
}

/// Whether the login can be used as is.
pub fn is_profile_ready(tokens: &Tokens) -> (res: bool)
    ensures
        res == profile_ready(*tokens),
{
    if is_api_key_profile(tokens) {
        return true;
    }
    if token_account_id(tokens).is_none() {
        return false;
    }
    let has_access = match &tokens.access_token {
        Some(a) => chars_of(a.as_str()).len() > 0,
        None => false,
    };
    if !has_access {
        return false;
    }
    let (email, plan) = extract_email_and_plan(tokens);
    email.is_some() && plan.is_some()
}

/// The account id, email and plan of a login, or the message for the first of
/// them that is missing.
pub fn require_identity(tokens: &Tokens) -> (res: Result<(String, String, String), String>)
    ensures
        match res {
            Ok((a, e, p)) => {
                &&& account_id_of(*tokens) == Some(a@)
                &&& email_and_plan(*tokens).0 == Some(e@)
                &&& email_and_plan(*tokens).1 == Some(p@)
            },
            Err(m) => if account_id_of(*tokens) is None {
                m@ == "Error: auth.json is missing tokens.account_id. Run `codex login` to reauthenticate."@
            } else if email_and_plan(*tokens).0 is None {
                m@ == "Error: auth.json is missing id_token email. Run `codex login` to reauthenticate."@
            } else {
                &&& email_and_plan(*tokens).1 is None
                &&& m@ == "Error: auth.json is missing id_token plan. Run `codex login` to reauthenticate."@
            },
        },
{
    let account_id = match token_account_id(tokens) {
        Some(a) => a,
        None => {
            return Err(
                owned(
                    "Error: auth.json is missing tokens.account_id. Run `codex login` to reauthenticate.",
                ),
            );
        },
    };
    let (email, plan) = extract_email_and_plan(tokens);
    let email = match email {
        Some(e) => e,
        None => {
            return Err(
                owned(
                    "Error: auth.json is missing id_token email. Run `codex login` to reauthenticate.",
                ),
            );
        },
    };
    let plan = match plan {
        Some(p) => p,
        None => {
            return Err(
                owned(
                    "Error: auth.json is missing id_token plan. Run `codex login` to reauthenticate.",
                ),
            );
        },
    };
    Ok((owned(account_id), email, plan))
}

/// Why a saved login cannot be listed as complete, or `None` where it can.
pub fn profile_error(tokens: &Tokens, email: Option<&str>, plan: Option<&str>) -> (res: Option<
    &'static str,
>)
    ensures
        is_api_key_tokens(*tokens) ==> res is None,
        !is_api_key_tokens(*tokens) ==> (if email is None || plan is None {
            res matches Some(m) && m@ == "profile missing id_token email/plan"@
        } else if account_id_of(*tokens) is None {
            res matches Some(m) && m@ == "profile missing tokens.account_id"@
        } else if tokens.access_token is None {
            res matches Some(m) && m@ == "profile missing tokens.access_token"@
        } else {
            res is None
        }),
{
    if is_api_key_profile(tokens) {
        return None;
    }
    if email.is_none() || plan.is_none() {
        return Some("profile missing id_token email/plan");
    }
    if token_account_id(tokens).is_none() {
        return Some("profile missing tokens.account_id");
    }
    if tokens.access_token.is_none() {
        return Some("profile missing tokens.access_token");
    }
    None
}

// ---------------------------------------------------------------------------
// Reading the auth file
// ---------------------------------------------------------------------------

/// The tokens of a Codex auth file that was read from `path` (or the message
/// under which reading it failed). A file without `tokens` but with an API key
/// stands for the tokens of that key; one with neither is an error.
pub fn read_tokens(path: &str, auth: Result<AuthFile, String>) -> (res: Result<Tokens, String>)
    ensures
        match auth {
            Err(m) => res == Err::<Tokens, String>(m),
            Ok(a) => match a.tokens {
                Some(t) => res == Ok::<Tokens, String>(t),
                None => match a.openai_api_key {
                    Some(k) => res matches Ok(t) && opt_seq(t.account_id) == Some(
                        api_key_profile_id_seq(k@),
                    ) && t.id_token is None && t.access_token is None && t.refresh_token is None,
                    None => res matches Err(m) && m@ == "Error: missing tokens in "@ + path@
                        + ". Run `codex login` to authenticate."@,
                },
            },
        },
{
    let auth = match auth {
        Ok(a) => a,
        Err(m) => return Err(m),
    };
    if let Some(tokens) = auth.tokens {
        return Ok(tokens);
    }
    if let Some(api_key) = &auth.openai_api_key {
        return Ok(tokens_from_api_key(api_key.as_str()));
    }
    Err(crate::text::concat3("Error: missing tokens in ", path, ". Run `codex login` to authenticate."))
}

/// The tokens of the auth file at a path, or `None` where the path is not a
/// file or the file gives no tokens.
pub fn read_tokens_opt(is_file: bool, path: &str, auth: Result<AuthFile, String>) -> (res: Option<
    Tokens,
>)
    ensures
        !is_file ==> res is None,
        is_file ==> (res is Some <==> (auth matches Ok(a) && (a.tokens is Some
            || a.openai_api_key is Some))),
        is_file ==> (auth matches Ok(a) ==> (a.tokens is Some ==> res == a.tokens)),
{
    if !is_file {
        return None;
    }
    match read_tokens(path, auth) {
        Ok(t) => Some(t),
        Err(_) => None,
    }
}

/// Whether the auth file at a path holds a login that can be used.
pub fn has_auth(is_file: bool, path: &str, auth: Result<AuthFile, String>) -> (res: bool)
    ensures
        !is_file ==> !res,
        is_file ==> (auth matches Ok(a) ==> (a.tokens matches Some(t) ==> res == profile_ready(t))),
        is_file ==> (auth is Err ==> !res),
        is_file ==> (auth matches Ok(a) ==> (a.tokens is None && a.openai_api_key is None ==> !res)),
{
    match read_tokens_opt(is_file, path, auth) {
        Some(t) => is_profile_ready(&t),
        None => false,
    }
}

// ---------------------------------------------------------------------------
// Refreshing tokens
// ---------------------------------------------------------------------------

/// The refresh token to send, or the message when the login has none.
pub fn refresh_token_for(tokens: &Tokens) -> (res: Result<String, String>)
    ensures
        match non_empty(opt_seq(tokens.refresh_token)) {
            Some(r) => res matches Ok(s) && s@ == r,
            None => res matches Err(m) && m@
                == "Error: profile is missing refresh_token; run `codex login` and save it again."@,
        },
{
    match &tokens.refresh_token {
        Some(r) => {
            if chars_of(r.as_str()).len() > 0 {
                return Ok(r.clone());
            }
        },
        None => {},
    }
    Err(owned("Error: profile is missing refresh_token; run `codex login` and save it again."))
}

/// Takes the tokens of a refresh reply into the login: the access token, and
/// the id and refresh tokens where the reply has them. A reply without an
/// access token is refused and leaves the login as it was.
pub fn apply_refresh(tokens: &mut Tokens, refreshed: &RefreshResponse) -> (res: Result<(), String>)
    ensures
        refreshed.access_token is None ==> {
            &&& res matches Err(m) && m@ == "Error: refresh response missing access_token."@
            &&& *final(tokens) == *old(tokens)
        },
        refreshed.access_token is Some ==> {
            &&& res is Ok
            &&& opt_seq(final(tokens).access_token) == opt_seq(refreshed.access_token)
            &&& opt_seq(final(tokens).id_token) == (if refreshed.id_token is Some {
                opt_seq(refreshed.id_token)
            } else {
                opt_seq(old(tokens).id_token)
            })
            &&& opt_seq(final(tokens).refresh_token) == (if refreshed.refresh_token is Some {
                opt_seq(refreshed.refresh_token)
            } else {
                opt_seq(old(tokens).refresh_token)
            })
            &&& final(tokens).account_id == old(tokens).account_id
        },
{
    let access = match &refreshed.access_token {
        Some(a) => a,
        None => return Err(owned("Error: refresh response missing access_token.")),
    };
    tokens.access_token = Some(owned(access.as_str()));
    if let Some(id) = &refreshed.id_token {
        tokens.id_token = Some(owned(id.as_str()));
    }
    if let Some(r) = &refreshed.refresh_token {
        tokens.refresh_token = Some(owned(r.as_str()));
    }
    Ok(())
}

/// The step of a token refresh after the token endpoint answered (with its
/// reply or the message of its failure): a failure is handed on, a reply is
/// taken into the login by `apply_refresh`.
pub fn refresh_profile_tokens(tokens: &mut Tokens, refreshed: Result<RefreshResponse, String>) -> (res:
    Result<(), String>)
    ensures
        match refreshed {
            Err(m) => res == Err::<(), String>(m) && *final(tokens) == *old(tokens),
            Ok(r) => (r.access_token is None ==> res is Err && *final(tokens) == *old(tokens))
                && (r.access_token is Some ==> res is Ok && opt_seq(final(tokens).access_token)
                == opt_seq(r.access_token)),
        },
{
    match refreshed {
        Err(m) => Err(m),
        Ok(r) => apply_refresh(tokens, &r),
    }
}

} // verus!
