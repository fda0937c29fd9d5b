//! Usage of saved profiles: when each was last used, where usage limits are
//! fetched from, and how they are shown.
use vstd::prelude::*;

use crate::num::{dec_seq, parse_u64_seq, u64_to_string};
use crate::text::{
    chars_of, concat, concat3, contains, contains_seq, is_prefix, owned, push_str, split_once_seq,
    str_eq, string_of, trim_seq,
};

verus! {

/// Why usage could not be fetched.
#[derive(Debug, Clone)]
pub enum UsageFetchError {
    Status(u16),
    Transport(String),
    Parse(String),
}

impl UsageFetchError {
    /// The HTTP status of a failed request, where there was one.
    pub fn status_code(&self) -> (res: Option<u16>)
        ensures
            res == (match self {
                UsageFetchError::Status(c) => Some(*c),
                _ => None,
            }),
    {
        match self {
            UsageFetchError::Status(code) => Some(*code),
            _ => None,
        }
    }

    /// The message shown for the error.
    pub fn message(&self) -> (res: String)
        ensures
            res@ == (match self {
                UsageFetchError::Status(c) => "Error: failed to fetch usage: http status: "@
                    + dec_seq(*c as nat),
                UsageFetchError::Transport(e) => "Error: failed to fetch usage: "@ + e@,
                UsageFetchError::Parse(e) => "Error: failed to parse usage: "@ + e@,
            }),
    {
        match self {
            UsageFetchError::Status(code) => concat(
                "Error: failed to fetch usage: http status: ",
                u64_to_string(*code as u64).as_str(),
            ),
            UsageFetchError::Transport(err) => concat("Error: failed to fetch usage: ", err.as_str()),
            UsageFetchError::Parse(err) => concat("Error: failed to parse usage: ", err.as_str()),
        }
    }
}

// ---------------------------------------------------------------------------
// The base URL from Codex's config.toml
// ---------------------------------------------------------------------------

/// The state of the comment scan after a prefix of a value: inside single
/// quotes, inside double quotes, and after an escaping backslash.
pub open spec fn scan_state(s: Seq<char>) -> (bool, bool, bool)
    decreases s.len(),
{
    if s.len() == 0 {
        (false, false, false)
    } else {
        let (sq, dq, esc) = scan_state(s.drop_last());
        let ch = s.last();
        let dq2 = if ch == '"' && !sq && !esc {
            !dq
        } else {
            dq
        };
        let sq2 = if ch == '\'' && !dq {
            !sq
        } else {
            sq
        };
        let esc2 = if ch != '\\' {
            false
        } else {
            dq2 && !esc
        };
        (sq2, dq2, esc2)
    }
}

/// Whether position `i` starts a comment: a `#` outside quotes.
pub open spec fn comment_at(s: Seq<char>, i: int) -> bool {
    let (sq, dq, esc) = scan_state(s.take(i));
    s[i] == '#' && !sq && !dq
}

/// A value without its inline comment (from the first `#` outside quotes),
/// and without trailing whitespace.
pub open spec fn strip_comment(s: Seq<char>) -> Seq<char> {
    if exists|i: int| 0 <= i < s.len() && comment_at(s, i) {
        let i = choose|i: int|
            0 <= i < s.len() && comment_at(s, i) && forall|j: int| 0 <= j < i ==> !comment_at(s, j);
        crate::text::trim_end_seq(s.take(i))
    } else {
        crate::text::trim_end_seq(s)
    }
}

/// A value without its inline comment.
pub fn strip_inline_comment(value: &str) -> (res: String)
    ensures
        res@ == strip_comment(value@),
{
    let v = chars_of(value);
    let mut in_single = false;
    let mut in_double = false;
    let mut escape = false;
    let mut idx: usize = 0;
    while idx < v.len()
        invariant
            idx <= v.len(),
            v@ == value@,
            (in_single, in_double, escape) == scan_state(v@.take(idx as int)),
            forall|j: int| 0 <= j < idx ==> !comment_at(v@, j),
        decreases v.len() - idx,
    {
        let ch = v[idx];
        assert(v@.take(idx + 1).drop_last() =~= v@.take(idx as int));
        if ch == '#' && !in_single && !in_double {
            proof {
                assert(comment_at(v@, idx as int));
                let k = choose|i: int|
                    0 <= i < v@.len() && comment_at(v@, i) && forall|j: int|
                        0 <= j < i ==> !comment_at(v@, j);
                if k < idx {
                    assert(!comment_at(v@, k));
                }
                if k > idx {
                    assert(!comment_at(v@, idx as int));
                }
            }
            let head = crate::text::slice_range(&v, 0, idx);
            assert(head@ =~= v@.take(idx as int));
            let t = crate::text::trim_end_chars(&head);
            return string_of(&t);
        }
        if ch == '"' && !in_single && !escape {
            in_double = !in_double;
        }
        if ch == '\'' && !in_double {
            in_single = !in_single;
        }
        escape = in_double && ch == '\\' && !escape;
        if ch != '\\' {
            escape = false;
        }
        proof {
            assert(!comment_at(v@, idx as int));
        }
        idx = idx + 1;
    }
    let t = crate::text::trim_end_chars(&v);
    string_of(&t)
}

/// The text without any leading or trailing copies of a character
/// (`str::trim_matches`).
pub open spec fn trim_char(s: Seq<char>, c: char) -> Seq<char> {
    trim_char_end(trim_char_start(s, c), c)
}

/// The text without leading copies of a character.
pub open spec fn trim_char_start(s: Seq<char>, c: char) -> Seq<char>
    decreases s.len(),
{
    if s.len() > 0 && s[0] == c {
        trim_char_start(s.drop_first(), c)
    } else {
        s
    }
}

/// The text without trailing copies of a character.
pub open spec fn trim_char_end(s: Seq<char>, c: char) -> Seq<char>
    decreases s.len(),
{
    if s.len() > 0 && s.last() == c {
        trim_char_end(s.drop_last(), c)
    } else {
        s
    }
}

fn trim_start_char_exec(s: &[char], c: char) -> (res: Vec<char>)
    ensures
        res@ == trim_char_start(s@, c),
{
    let mut start: usize = 0;
    assert(s@.skip(0) =~= s@);
    while start < s.len() && s[start] == c
        invariant
            start <= s.len(),
            trim_char_start(s@, c) == trim_char_start(s@.skip(start as int), c),
        decreases s.len() - start,
    {
        assert(s@.skip(start as int).drop_first() =~= s@.skip(start + 1));
        start = start + 1;
    }
    let out = crate::text::slice_range(s, start, s.len());
    assert(out@ =~= s@.skip(start as int));
    assert(trim_char_start(out@, c) == out@);
    out
}

fn trim_end_char_exec(s: &[char], c: char) -> (res: Vec<char>)
    ensures
        res@ == trim_char_end(s@, c),
{
    let mut end: usize = s.len();
    assert(s@.take(s.len() as int) =~= s@);
    while end > 0 && s[end - 1] == c
        invariant
            end <= s.len(),
            trim_char_end(s@, c) == trim_char_end(s@.take(end as int), c),
        decreases end,
    {
        assert(s@.take(end as int).drop_last() =~= s@.take(end - 1));
        end = end - 1;
    }
    let out = crate::text::slice_range(s, 0, end);
    assert(out@ =~= s@.take(end as int));
    assert(trim_char_end(out@, c) == out@);
    out
}

/// A character vector without leading or trailing copies of a character.
pub fn trim_char_vec(s: &[char], c: char) -> (res: Vec<char>)
    ensures
        res@ == trim_char(s@, c),
{
    trim_char_exec(s, c)
}

fn trim_char_exec(s: &[char], c: char) -> (res: Vec<char>)
    ensures
        res@ == trim_char(s@, c),
{
    let a = trim_start_char_exec(s, c);
    trim_end_char_exec(&a, c)
}

/// The value of `key` in one line of a TOML file: the trimmed text after `=`
/// without its comment and its quotes; `None` for blank lines, comments,
/// other keys and empty values.
pub open spec fn config_value(line: Seq<char>, key: Seq<char>) -> Option<Seq<char>> {
    let l = trim_seq(line);
    if l.len() == 0 || l[0] == '#' {
        None
    } else {
        match split_once_seq(l, '=') {
            None => None,
            Some((k, raw)) => if trim_seq(k) != key {
                None
            } else {
                let v = trim_seq(strip_comment(raw));
                if v.len() == 0 {
                    None
                } else {
                    let u = trim_seq(trim_char(trim_char(v, '"'), '\''));
                    if u.len() == 0 {
                        None
                    } else {
                        Some(u)
                    }
                }
            },
        }
    }
}

/// The value of `key` in one line of a TOML file.
pub fn parse_config_value(line: &str, key: &str) -> (res: Option<String>)
    ensures
        crate::auth::opt_seq(res) == config_value(line@, key@),
{
    let l = crate::text::trim_chars(&chars_of(line));
    if l.len() == 0 || l[0] == '#' {
        return None;
    }
    let (k, raw) = match crate::text::split_once_chars(&l, '=') {
        Some(x) => x,
        None => return None,
    };
    let kt = crate::text::trim_chars(&k);
    if !crate::text::chars_eq(&kt, &chars_of(key)) {
        return None;
    }
    let stripped = strip_inline_comment(string_of(&raw).as_str());
    let v = crate::text::trim_chars(&chars_of(stripped.as_str()));
    if v.len() == 0 {
        return None;
    }
    let u1 = trim_char_exec(&v, '"');
    let u2 = trim_char_exec(&u1, '\'');
    let u = crate::text::trim_chars(&u2);
    if u.len() == 0 {
        return None;
    }
    Some(string_of(&u))
}

/// The text without trailing `/`.
pub open spec fn trim_slashes(s: Seq<char>) -> Seq<char> {
    trim_char_end(s, '/')
}

/// A ChatGPT base URL with `/backend-api` added where a chatgpt.com or
/// chat.openai.com address lacks it.
pub open spec fn normalized_base_url(value: Seq<char>) -> Seq<char> {
    let base = trim_slashes(value);
    if (is_prefix("https://chatgpt.com"@, base) || is_prefix("https://chat.openai.com"@, base))
        && !contains_seq(base, "/backend-api"@) {
        base + "/backend-api"@
    } else {
        base
    }
}

/// A base URL without trailing slashes, and with `/backend-api` where the
/// ChatGPT address needs it.
pub fn normalize_base_url(value: &str) -> (res: String)
    ensures
        res@ == normalized_base_url(value@),
{
    let b = trim_end_char_exec(&chars_of(value), '/');
    let chatgpt = crate::text::starts_with(&b, &chars_of("https://chatgpt.com"))
        || crate::text::starts_with(&b, &chars_of("https://chat.openai.com"));
    let needs = chatgpt && !contains(&b, &chars_of("/backend-api"));
    let base = string_of(&b);
    if needs {
        concat(base.as_str(), "/backend-api")
    } else {
        base
    }
}

/// The default ChatGPT backend.
pub open spec fn default_base_url() -> Seq<char> {
    "https://chatgpt.com/backend-api"@
}

/// The base URL configured in the first line of Codex's config.toml that sets
/// `chatgpt_base_url`, normalized; the default where none does or the file
/// could not be read.
pub open spec fn base_url_of(lines: Seq<Seq<char>>) -> Seq<char>
    decreases lines.len(),
{
    if lines.len() == 0 {
        default_base_url()
    } else {
        match config_value(lines[0], "chatgpt_base_url"@) {
            Some(v) => normalized_base_url(v),
            None => base_url_of(lines.drop_first()),
        }
    }
}

/// The base URL of the usage endpoint, from the contents of Codex's
/// config.toml (`None` where it could not be read).
pub fn read_base_url(contents: Option<&str>) -> (res: String)
    ensures
        res@ == match contents {
            Some(c) => base_url_of(crate::ui::lines_of(c@)),
            None => default_base_url(),
        },
{
    let c = match contents {
        Some(c) => c,
        None => return owned("https://chatgpt.com/backend-api"),
    };
    let lines = crate::updates::lines_vec(c);
    let ghost all = crate::updates::vv(lines@);
    let mut i: usize = 0;
    assert(all.skip(0) =~= all);
    while i < lines.len()
        invariant
            i <= lines.len(),
            all == crate::updates::vv(lines@),
            base_url_of(all) == base_url_of(all.skip(i as int)),
            all == crate::ui::lines_of(c@),
            contents == Some(c),
        decreases lines.len() - i,
    {
        assert(all.skip(i as int).drop_first() =~= all.skip(i + 1));
        assert(all.skip(i as int)[0] == lines@[i as int]@);
        let line = string_of(&lines[i]);
        if let Some(v) = parse_config_value(line.as_str(), "chatgpt_base_url") {
            assert(base_url_of(all.skip(i as int)) == normalized_base_url(v@));
            return normalize_base_url(v.as_str());
        }
        i = i + 1;
    }
    owned("https://chatgpt.com/backend-api")
}

/// The usage endpoint of a base URL.
pub fn usage_endpoint(base_url: &str) -> (res: String)
    ensures
        res@ == base_url@ + (if contains_seq(base_url@, "/backend-api"@) {
            "/wham/usage"@
        } else {
            "/api/codex/usage"@
        }),
{
    if contains(&chars_of(base_url), &chars_of("/backend-api")) {
        concat(base_url, "/wham/usage")
    } else {
        concat(base_url, "/api/codex/usage")
    }
}

// ---------------------------------------------------------------------------
// Texts about usage
// ---------------------------------------------------------------------------

/// The text shown where usage is not available.
pub fn usage_unavailable(plan_is_free: bool) -> (res: &'static str)
    ensures
        res@ == (if plan_is_free {
            "You need a ChatGPT subscription to use Codex CLI"@
        } else {
            "Data not available"@
        }),
{
    if plan_is_free {
        "You need a ChatGPT subscription to use Codex CLI"
    } else {
        "Data not available"
    }
}

/// The unavailable text as shown: `INFO: ` in plain mode, red and bold on a
/// colour terminal.
pub fn format_usage_unavailable(ui: &crate::ui::Ui, text: &str, use_color: bool) -> (res: String)
    ensures
        ui.plain ==> res@ == "INFO: "@ + text@,
        !ui.plain && !use_color ==> res@ == text@,
        !ui.plain && use_color ==> crate::ui::painted(res@, text@),
{
    if ui.plain {
        concat("INFO: ", text)
    } else if use_color {
        crate::ui::paint_styled(text, crate::ui::Paint::RedBold)
    } else {
        owned(text)
    }
}

/// A duration in whole seconds as its largest unit: seconds under a minute,
/// minutes under an hour, hours under a day, else days.
pub open spec fn duration_text(secs: nat) -> Seq<char> {
    if secs < 60 {
        dec_seq(secs) + "s"@
    } else if secs < 3600 {
        dec_seq(secs / 60) + "m"@
    } else if secs < 86400 {
        dec_seq(secs / 3600) + "h"@
    } else {
        dec_seq(secs / 86400) + "d"@
    }
}

/// How a duration is shown: as time since last use, or as time to a reset.
#[derive(Debug, Clone, Copy, PartialEq, Eq, Structural)]
pub enum DurationStyle {
    LastUsed,
    ResetTimer,
}

/// A duration as shown: `{n}{unit}`, or `in {n}{unit}` for a reset timer.
pub fn format_duration(secs: u64, style: DurationStyle) -> (res: String)
    ensures
        res@ == (match style {
            DurationStyle::LastUsed => duration_text(secs as nat),
            DurationStyle::ResetTimer => "in "@ + duration_text(secs as nat),
        }),
{
    let (value, unit): (u64, &str) = if secs < 60 {
        (secs, "s")
    } else if secs < 3600 {
        (secs / 60, "m")
    } else if secs < 86400 {
        (secs / 3600, "h")
    } else {
        (secs / 86400, "d")
    };
    let text = concat(u64_to_string(value).as_str(), unit);
    match style {
        DurationStyle::LastUsed => text,
        DurationStyle::ResetTimer => concat("in ", text.as_str()),
    }
}

/// The current time in whole seconds since the Unix epoch, from
/// `std::time::SystemTime::now`; 0 where the clock is set before the epoch.
/// Nothing is promised of the value: it is the machine's clock.
#[verifier::external_body]
pub fn now_seconds() -> (res: u64) {
    match std::time::SystemTime::now().duration_since(std::time::UNIX_EPOCH) {
        Ok(d) => d.as_secs(),
        Err(_) => 0,
    }
}

/// When a profile was last used, relative to `now` (both in seconds since
/// the epoch): `unknown` for never, `{d} ago` for the past, `in {d}` for the
/// future.
pub fn format_last_used(ts: u64, now: u64) -> (res: String)
    ensures
        ts == 0 ==> res@ == "unknown"@,
        ts != 0 && now >= ts ==> res@ == duration_text((now - ts) as nat) + " ago"@,
        ts != 0 && now < ts ==> res@ == "in "@ + duration_text((ts - now) as nat),
{
    if ts == 0 {
        return owned("unknown");
    }
    if now >= ts {
        let text = format_duration(now - ts, DurationStyle::LastUsed);
        concat(text.as_str(), " ago")
    } else {
        let text = format_duration(ts - now, DurationStyle::LastUsed);
        concat("in ", text.as_str())
    }
}

/// Whether `chrono` can represent a timestamp.
pub uninterp spec fn chrono_timestamp_valid(ts: int) -> bool;

/// Asks `chrono::DateTime::<Utc>::from_timestamp` whether a timestamp in
/// seconds is within the range of dates it represents. Trusted: the answer
/// is the name `chrono_timestamp_valid` of the timestamp.
#[verifier::external_body]
fn timestamp_valid(ts: i64) -> (res: bool)
    ensures
        res == chrono_timestamp_valid(ts as int),
{
    chrono::DateTime::<chrono::Utc>::from_timestamp(ts, 0).is_some()
}

/// When a usage window resets, relative to `now` (seconds since the epoch):
/// `now` where it is due, else `in {d}`; none for a timestamp out of range.
pub fn format_reset_relative(reset_at: i64, now: i64) -> (res: Option<String>)
    ensures
        !chrono_timestamp_valid(reset_at as int) ==> res is None,
        chrono_timestamp_valid(reset_at as int) && reset_at <= now ==> (res matches Some(s) && s@
            == "now"@),
        chrono_timestamp_valid(reset_at as int) && reset_at > now ==> (res matches Some(s) && s@
            == "in "@ + duration_text((reset_at - now) as nat)),
{
    if !timestamp_valid(reset_at) {
        return None;
    }
    if reset_at <= now {
        return Some(owned("now"));
    }
    let secs: u64 = ((reset_at as i128) - (now as i128)) as u64;
    Some(format_duration(secs, DurationStyle::ResetTimer))
}

// ---------------------------------------------------------------------------
// The usage file: one `id<TAB>timestamp` line per profile
// ---------------------------------------------------------------------------

/// The entry of one line of the usage file: a non-empty id, a tab, and a
/// timestamp; `None` for other lines.
pub open spec fn usage_line_entry(line: Seq<char>) -> Option<(Seq<char>, u64)> {
    let l = trim_seq(line);
    if l.len() == 0 {
        None
    } else {
        match split_once_seq(l, '\t') {
            None => None,
            Some((id, ts)) => match parse_u64_seq(ts) {
                None => None,
                Some(t) => if id.len() == 0 {
                    None
                } else {
                    Some((id, t))
                },
            },
        }
    }
}

/// The entries of the lines, in order.
pub open spec fn usage_entries(lines: Seq<Seq<char>>) -> Seq<(Seq<char>, u64)>
    decreases lines.len(),
{
    if lines.len() == 0 {
        Seq::empty()
    } else {
        usage_entries(lines.drop_last()) + match usage_line_entry(lines.last()) {
            Some(e) => seq![e],
            None => Seq::empty(),
        }
    }
}

/// Entries as texts and numbers.
pub open spec fn entries_view(e: Seq<(String, u64)>) -> Seq<(Seq<char>, u64)> {
    Seq::new(e.len(), |i: int| (e[i].0@, e[i].1))
}

fn usage_line_entry_exec(line: &[char]) -> (res: Option<(String, u64)>)
    ensures
        match usage_line_entry(line@) {
            Some((id, t)) => res matches Some((s, u)) && s@ == id && u == t,
            None => res is None,
        },
{
    let l = crate::text::trim_chars(line);
    if l.len() == 0 {
        return None;
    }
    let (id, ts) = match crate::text::split_once_chars(&l, '\t') {
        Some(x) => x,
        None => return None,
    };
    let t = match crate::num::parse_u64_chars(&ts) {
        Some(t) => t,
        None => return None,
    };
    if id.len() == 0 {
        None
    } else {
        Some((string_of(&id), t))
    }
}

/// The entries of the usage file's contents.
pub fn parse_usage_entries(contents: &str) -> (res: Vec<(String, u64)>)
    ensures
        entries_view(res@) == usage_entries(crate::ui::lines_of(contents@)),
{
    let lines = crate::updates::lines_vec(contents);
    let ghost all = crate::updates::vv(lines@);
    let mut out: Vec<(String, u64)> = Vec::new();
    let mut i: usize = 0;
    while i < lines.len()
        invariant
            i <= lines.len(),
            all == crate::updates::vv(lines@),
            all == crate::ui::lines_of(contents@),
            entries_view(out@) == usage_entries(all.take(i as int)),
        decreases lines.len() - i,
    {
        assert(all.take(i + 1).drop_last() =~= all.take(i as int));
        assert(all.take(i + 1).last() == lines@[i as int]@);
        let ghost before = entries_view(out@);
        match usage_line_entry_exec(&lines[i]) {
            Some(e) => {
                out.push(e);
                assert(entries_view(out@) =~= before.push((out@[out.len() - 1].0@, out@[out.len() - 1].1)));
            },
            None => {},
        }
        assert(entries_view(out@) =~= usage_entries(all.take(i + 1)));
        i = i + 1;
    }
    assert(all.take(lines.len() as int) =~= all);
    out
}

/// The usage file's contents for entries: one `id<TAB>timestamp` line each.
pub open spec fn usage_contents(e: Seq<(Seq<char>, u64)>) -> Seq<char>
    decreases e.len(),
{
    if e.len() == 0 {
        Seq::empty()
    } else {
        usage_contents(e.drop_last()) + e.last().0 + seq!['\t'] + dec_seq(e.last().1 as nat) + seq![
            '\n',
        ]
    }
}

/// The contents of the usage file for entries.
pub fn format_usage_contents(entries: &[(String, u64)]) -> (res: String)
    ensures
        res@ == usage_contents(entries_view(entries@)),
{
    let mut out = String::new();
    let mut i: usize = 0;
    while i < entries.len()
        invariant
            i <= entries.len(),
            out@ == usage_contents(entries_view(entries@.take(i as int))),
        decreases entries.len() - i,
    {
        let ghost t = entries_view(entries@.take(i + 1));
        assert(t.drop_last() =~= entries_view(entries@.take(i as int)));
        push_str(&mut out, entries[i].0.as_str());
        out.push('\t');
        push_str(&mut out, u64_to_string(entries[i].1).as_str());
        out.push('\n');
        i = i + 1;
    }
    assert(entries@.take(entries.len() as int) =~= entries@);
    out
}

/// An id that a line of the usage file can hold: not empty, without a tab or
/// a line break, and not starting with whitespace.
pub open spec fn storable_id(id: Seq<char>) -> bool {
    id.len() > 0 && !id.contains('\t') && !id.contains('\n') && !crate::text::is_ws(id[0])
}

/// The line that the usage file holds for one entry.
pub open spec fn usage_line(id: Seq<char>, t: u64) -> Seq<char> {
    id + seq!['\t'] + dec_seq(t as nat)
}

proof fn lemma_usage_line(id: Seq<char>, t: u64)
    requires
        storable_id(id),
    ensures
        !usage_line(id, t).contains('\n'),
        crate::ui::strip_cr(usage_line(id, t)) == usage_line(id, t),
        usage_line_entry(usage_line(id, t)) == Some((id, t)),
{
    let l = usage_line(id, t);
    let d = dec_seq(t as nat);
    crate::num::lemma_dec_digits(t as nat);
    crate::num::lemma_parse_dec(t);
    assert(l.last() == d.last());
    assert forall|j: int| 0 <= j < l.len() implies l[j] != '\n' by {
        if j < id.len() {
            assert(l[j] == id[j]);
        } else if j > id.len() {
            assert(l[j] == d[j - id.len() - 1]);
        }
    }
    assert(l[0] == id[0]);
    assert(!crate::text::is_ws(l.last()));
    assert(trim_seq(l) == l);
    assert(l[id.len() as int] == '\t');
    assert forall|j: int| 0 <= j < id.len() implies l[j] != '\t' by {
        assert(l[j] == id[j]);
    }
    crate::text::lemma_index_of_first(l, '\t', id.len() as int);
    assert(l.take(id.len() as int) =~= id);
    assert(l.skip(id.len() as int + 1) =~= d);
}

proof fn lemma_entries_push(lines: Seq<Seq<char>>, l: Seq<char>, id: Seq<char>, t: u64)
    requires
        usage_line_entry(l) == Some((id, t)),
    ensures
        usage_entries(lines.push(l)) == usage_entries(lines).push((id, t)),
{
    assert(lines.push(l).drop_last() =~= lines);
    assert(usage_entries(lines).push((id, t)) =~= usage_entries(lines) + seq![(id, t)]);
}

proof fn lemma_contents_push(e: Seq<(Seq<char>, u64)>)
    requires
        e.len() > 0,
    ensures
        usage_contents(e) == usage_contents(e.drop_last()) + usage_line(e.last().0, e.last().1).push(
            '\n',
        ),
        usage_contents(e.drop_last()).len() == 0 || usage_contents(e.drop_last()).last() == '\n',
{
    let p = e.drop_last();
    assert(usage_contents(e) =~= usage_contents(p) + usage_line(e.last().0, e.last().1).push('\n'));
    if p.len() > 0 {
        assert(usage_contents(p).last() == '\n');
    }
}

/// The usage file reads back as the entries it was written from, where each id
/// fits on a line.
pub proof fn lemma_usage_round_trip(e: Seq<(Seq<char>, u64)>)
    requires
        forall|i: int| 0 <= i < e.len() ==> storable_id(#[trigger] e[i].0),
    ensures
        usage_entries(crate::ui::lines_of(usage_contents(e))) == e,
    decreases e.len(),
{
    if e.len() == 0 {
        crate::ui::lemma_lines_unfold(seq!['\n']);
        assert(usage_contents(e) =~= Seq::<char>::empty());
        assert(usage_entries(Seq::<Seq<char>>::empty()) =~= e);
    } else {
        let p = e.drop_last();
        let id = e.last().0;
        let t = e.last().1;
        assert(storable_id(e[e.len() - 1].0));
        assert forall|i: int| 0 <= i < p.len() implies storable_id(#[trigger] p[i].0) by {
            assert(p[i] == e[i]);
        }
        lemma_usage_round_trip(p);
        lemma_usage_line(id, t);
        lemma_contents_push(e);
        let c = usage_contents(p);
        let l = usage_line(id, t);
        crate::ui::lemma_lines_concat(c, l.push('\n'));
        crate::ui::lemma_lines_one(l);
        let lc = crate::ui::lines_of(c);
        assert(lc + seq![l] =~= lc.push(l));
        assert(crate::ui::lines_of(usage_contents(e)) == lc.push(l));
        lemma_entries_push(lc, l, id, t);
        assert(p.push((id, t)) =~= e);
    }
}

// ---------------------------------------------------------------------------
// Last-used times of the saved profiles
// ---------------------------------------------------------------------------

/// The latest timestamp recorded for an id, or 0.
pub open spec fn max_ts(e: Seq<(Seq<char>, u64)>, id: Seq<char>) -> u64
    decreases e.len(),
{
    if e.len() == 0 {
        0
    } else {
        let m = max_ts(e.drop_last(), id);
        if e.last().0 == id && e.last().1 > m {
            e.last().1
        } else {
            m
        }
    }
}

/// The ids of entries.
pub open spec fn ids_of(v: Seq<(Seq<char>, u64)>) -> Seq<Seq<char>> {
    Seq::new(v.len(), |i: int| v[i].0)
}

/// Whether ids are in strictly increasing order (so none repeats).
pub open spec fn strictly_sorted(v: Seq<(Seq<char>, u64)>) -> bool {
    forall|i: int, j: int|
        0 <= i < j < v.len() ==> crate::text::lex_order(#[trigger] v[i].0, #[trigger] v[j].0) < 0
}

/// Whether a map (entries sorted by id) holds exactly the given ids, each
/// with its latest recorded timestamp (0 where none is recorded).
pub open spec fn normalized_usage(
    res: Seq<(Seq<char>, u64)>,
    entries: Seq<(Seq<char>, u64)>,
    ids: Seq<Seq<char>>,
) -> bool {
    &&& strictly_sorted(res)
    &&& forall|x: Seq<char>| ids_of(res).contains(x) <==> ids.contains(x)
    &&& forall|k: int| 0 <= k < res.len() ==> #[trigger] res[k].1 == max_ts(entries, res[k].0)
}

/// Texts of strings.
pub open spec fn strings_view(v: Seq<String>) -> Seq<Seq<char>> {
    Seq::new(v.len(), |i: int| v[i]@)
}

proof fn lemma_insert_sorted(old_v: Seq<(Seq<char>, u64)>, pos: int, id: Seq<char>)
    requires
        strictly_sorted(old_v),
        0 <= pos <= old_v.len(),
        forall|k: int| 0 <= k < pos ==> crate::text::lex_order(#[trigger] old_v[k].0, id) < 0,
        pos < old_v.len() ==> crate::text::lex_order(old_v[pos].0, id) > 0,
    ensures
        strictly_sorted(old_v.insert(pos, (id, 0u64))),
{
    let n = old_v.insert(pos, (id, 0u64));
    assert forall|i: int, j: int| 0 <= i < j < n.len() implies crate::text::lex_order(
        #[trigger] n[i].0,
        #[trigger] n[j].0,
    ) < 0 by {
        if i < pos && j == pos {
        } else if i < pos && j > pos {
            assert(n[j] == old_v[j - 1]);
            if j - 1 == i {
            } else {
            }
            assert(crate::text::lex_order(old_v[i].0, old_v[j - 1].0) < 0);
        } else if i == pos {
            assert(n[j] == old_v[j - 1]);
            crate::text::lemma_lex_order_antisym(old_v[pos].0, id);
            if j - 1 > pos {
                assert(crate::text::lex_order(old_v[pos].0, old_v[j - 1].0) < 0);
                crate::text::lemma_lex_order_trans(id, old_v[pos].0, old_v[j - 1].0);
            }
        } else if i > pos {
            assert(n[i] == old_v[i - 1]);
            assert(n[j] == old_v[j - 1]);
        }
    }
}

proof fn lemma_insert_ids(before: Seq<(Seq<char>, u64)>, pos: int, id: Seq<char>)
    requires
        0 <= pos <= before.len(),
    ensures
        forall|x: Seq<char>|
            ids_of(before.insert(pos, (id, 0u64))).contains(x) <==> (ids_of(before).contains(x)
                || x == id),
{
    let nv = before.insert(pos, (id, 0u64));
    assert forall|x: Seq<char>| ids_of(nv).contains(x) <==> (ids_of(before).contains(x) || x
        == id) by {
        if ids_of(nv).contains(x) {
            let k = choose|k: int| 0 <= k < nv.len() && ids_of(nv)[k] == x;
            if k < pos {
                assert(ids_of(before)[k] == x);
            } else if k > pos {
                assert(ids_of(before)[k - 1] == x);
            }
        }
        if ids_of(before).contains(x) {
            let k = choose|k: int| 0 <= k < before.len() && ids_of(before)[k] == x;
            if k < pos {
                assert(ids_of(nv)[k] == x);
            } else {
                assert(ids_of(nv)[k + 1] == x);
            }
        }
        if x == id {
            assert(ids_of(nv)[pos] == x);
        }
    }
}

#[verifier::spinoff_prover]
fn insert_sorted(map: &mut Vec<(String, u64)>, id: &String)
    requires
        strictly_sorted(entries_view(old(map)@)),
        forall|k: int| 0 <= k < old(map).len() ==> (#[trigger] old(map)@[k]).1 == 0,
    ensures
        strictly_sorted(entries_view(final(map)@)),
        forall|k: int| 0 <= k < final(map).len() ==> (#[trigger] final(map)@[k]).1 == 0,
        forall|x: Seq<char>|
            ids_of(entries_view(final(map)@)).contains(x) <==> (ids_of(
                entries_view(old(map)@),
            ).contains(x) || x == id@),
{
    let ghost before = entries_view(map@);
    let mut pos: usize = 0;
    while pos < map.len() && crate::text::compare_str(map[pos].0.as_str(), id.as_str()) < 0
        invariant
            pos <= map.len(),
            map@ == old(map)@,
            before == entries_view(map@),
            forall|k: int| 0 <= k < pos ==> crate::text::lex_order(#[trigger] before[k].0, id@) < 0,
        decreases map.len() - pos,
    {
        pos = pos + 1;
    }
    if pos < map.len() {
        let c = crate::text::compare_str(map[pos].0.as_str(), id.as_str());
        if c == 0 {
            proof {
                crate::text::lemma_lex_order_antisym(before[pos as int].0, id@);
                assert(ids_of(before)[pos as int] == id@);
            }
            return;
        }
    }
    proof {
        lemma_insert_sorted(before, pos as int, id@);
    }
    let ghost idv = id@;
    map.insert(pos, (id.clone(), 0));
    proof {
        assert(before == entries_view(old(map)@));
        assert(idv == id@);
        assert(entries_view(map@) =~= before.insert(pos as int, (idv, 0u64)));
        lemma_insert_ids(before, pos as int, idv);
        assert(ids_of(entries_view(map@)) == ids_of(before.insert(pos as int, (idv, 0u64))));
    }
}

fn max_ts_exec(entries: &[(String, u64)], id: &str) -> (res: u64)
    ensures
        res == max_ts(entries_view(entries@), id@),
{
    let mut m: u64 = 0;
    let mut i: usize = 0;
    while i < entries.len()
        invariant
            i <= entries.len(),
            m == max_ts(entries_view(entries@.take(i as int)), id@),
        decreases entries.len() - i,
    {
        assert(entries_view(entries@.take(i + 1)).drop_last() =~= entries_view(
            entries@.take(i as int),
        ));
        if crate::text::str_eq(entries[i].0.as_str(), id) && entries[i].1 > m {
            m = entries[i].1;
        }
        i = i + 1;
    }
    assert(entries@.take(entries.len() as int) =~= entries@);
    m
}

/// The last-used map of the saved profiles: every saved id once, sorted, with
/// the latest timestamp the usage file records for it (0 where none);
/// entries of ids that are not saved are dropped.
pub fn normalize_usage(entries: &[(String, u64)], ids: &[String]) -> (res: Vec<(String, u64)>)
    ensures
        normalized_usage(entries_view(res@), entries_view(entries@), strings_view(ids@)),
{
    let mut map: Vec<(String, u64)> = Vec::new();
    let mut i: usize = 0;
    while i < ids.len()
        invariant
            i <= ids.len(),
            strictly_sorted(entries_view(map@)),
            forall|k: int| 0 <= k < map.len() ==> (#[trigger] map@[k]).1 == 0,
            forall|x: Seq<char>|
                ids_of(entries_view(map@)).contains(x) <==> strings_view(ids@).take(
                    i as int,
                ).contains(x),
        decreases ids.len() - i,
    {
        insert_sorted(&mut map, &ids[i]);
        proof {
            let t = strings_view(ids@).take(i + 1);
            assert(t =~= strings_view(ids@).take(i as int).push(ids@[i as int]@));
            assert forall|x: Seq<char>| t.contains(x) <==> (strings_view(ids@).take(
                i as int,
            ).contains(x) || x == ids@[i as int]@) by {
                if t.contains(x) {
                    let k = choose|k: int| 0 <= k < t.len() && t[k] == x;
                    if k < i {
                        assert(strings_view(ids@).take(i as int)[k] == x);
                    }
                }
                if strings_view(ids@).take(i as int).contains(x) {
                    let k = choose|k: int| 0 <= k < i && strings_view(ids@).take(i as int)[k] == x;
                    assert(t[k] == x);
                }
                if x == ids@[i as int]@ {
                    assert(t[i as int] == x);
                }
            }
        }
        i = i + 1;
    }
    assert(strings_view(ids@).take(ids.len() as int) =~= strings_view(ids@));
    let ghost sorted_ids = ids_of(entries_view(map@));
    let mut k: usize = 0;
    while k < map.len()
        invariant
            k <= map.len(),
            ids_of(entries_view(map@)) == sorted_ids,
            strictly_sorted(entries_view(map@)),
            forall|q: int| 0 <= q < k ==> #[trigger] map@[q].1 == max_ts(entries_view(entries@), map@[q].0@),
        decreases map.len() - k,
    {
        let t = max_ts_exec(entries, map[k].0.as_str());
        let (id, _old) = map.remove(k);
        let ghost idv = id@;
        map.insert(k, (id, t));
        proof {
            assert(ids_of(entries_view(map@)) =~= sorted_ids);
            assert forall|a: int, b: int| 0 <= a < b < map.len() implies crate::text::lex_order(
                #[trigger] entries_view(map@)[a].0,
                #[trigger] entries_view(map@)[b].0,
            ) < 0 by {
                assert(entries_view(map@)[a].0 == sorted_ids[a]);
                assert(entries_view(map@)[b].0 == sorted_ids[b]);
            }
        }
        k = k + 1;
    }
    proof {
        assert forall|q: int| 0 <= q < map.len() implies #[trigger] entries_view(map@)[q].1 == max_ts(
            entries_view(entries@),
            entries_view(map@)[q].0,
        ) by {
            assert(map@[q].1 == max_ts(entries_view(entries@), map@[q].0@));
        }
    }
    map
}

/// The order of profiles by recency: the most recently used first, then by
/// id.
pub open spec fn recency_order(a: (Seq<char>, u64), b: (Seq<char>, u64)) -> int {
    crate::priority::then_ord(
        crate::priority::ord_int(b.1 as int, a.1 as int),
        crate::text::lex_order(a.0, b.0),
    )
}

/// Whether entries are in recency order.
pub open spec fn by_recency(v: Seq<(Seq<char>, u64)>) -> bool {
    forall|i: int, j: int| 0 <= i < j < v.len() ==> recency_order(#[trigger] v[i], #[trigger] v[j]) <= 0
}

proof fn lemma_recency_order(a: (Seq<char>, u64), b: (Seq<char>, u64), c: (Seq<char>, u64))
    ensures
        recency_order(a, b) == -recency_order(b, a),
        recency_order(a, b) <= 0 && recency_order(b, c) <= 0 ==> recency_order(a, c) <= 0,
{
    crate::text::lemma_lex_order_antisym(a.0, b.0);
    crate::text::lemma_lex_order_antisym(b.0, c.0);
    crate::text::lemma_lex_order_antisym(a.0, c.0);
    if crate::text::lex_order(a.0, b.0) <= 0 && crate::text::lex_order(b.0, c.0) <= 0 {
        crate::text::lemma_lex_order_trans(a.0, b.0, c.0);
    }
}

fn recency_order_exec(a: &(String, u64), b: &(String, u64)) -> (res: i8)
    ensures
        res == recency_order((a.0@, a.1), (b.0@, b.1)),
{
    proof {
        crate::text::lemma_lex_order_antisym(a.0@, b.0@);
    }
    if b.1 < a.1 {
        -1
    } else if b.1 > a.1 {
        1
    } else {
        crate::text::compare_str(a.0.as_str(), b.0.as_str())
    }
}

proof fn lemma_swap_ms(s: Seq<(Seq<char>, u64)>, a: int, b: int)
    requires
        0 <= a < s.len(),
        0 <= b < s.len(),
        a != b,
    ensures
        s.update(a, s[b]).update(b, s[a]).to_multiset() == s.to_multiset(),
{
    broadcast use vstd::multiset::group_multiset_axioms, vstd::seq_lib::group_to_multiset_ensures;

    let t = s.update(a, s[b]);
    vstd::seq_lib::to_multiset_update(s, a, s[b]);
    vstd::seq_lib::to_multiset_update(t, b, s[a]);
    assert(t.update(b, s[a]).to_multiset() =~= s.to_multiset());
}

/// The profiles of a last-used map, most recently used first, ties by id.
pub fn ordered_profiles(map: &[(String, u64)]) -> (res: Vec<(String, u64)>)
    ensures
        by_recency(entries_view(res@)),
        entries_view(res@).to_multiset() == entries_view(map@).to_multiset(),
{
    let mut rows: Vec<(String, u64)> = Vec::new();
    let mut q: usize = 0;
    while q < map.len()
        invariant
            q <= map.len(),
            entries_view(rows@) == entries_view(map@.take(q as int)),
        decreases map.len() - q,
    {
        let ghost before = entries_view(rows@);
        let id = map[q].0.clone();
        let ts = map[q].1;
        assert(id@ == map@[q as int].0@);
        rows.push((id, ts));
        assert(entries_view(rows@) =~= before.push((map@[q as int].0@, map@[q as int].1)));
        assert(entries_view(rows@) =~= entries_view(map@.take(q + 1)));
        q = q + 1;
    }
    assert(map@.take(map.len() as int) =~= map@);
    let ghost orig = entries_view(rows@);
    let n = rows.len();
    if n == 0 {
        return rows;
    }
    let mut i: usize = 1;
    while i < n
        invariant
            1 <= i <= n,
            n == rows.len(),
            by_recency(entries_view(rows@).take(i as int)),
            entries_view(rows@).to_multiset() == orig.to_multiset(),
        decreases n - i,
    {
        let mut j: usize = i;
        proof {
            let v = entries_view(rows@);
            assert forall|a: int, b: int|
                0 <= a < b <= i && a != j && b != j implies recency_order(
                    #[trigger] v[a],
                    #[trigger] v[b],
                ) <= 0 by {
                assert(v.take(i as int)[a] == v[a]);
                assert(v.take(i as int)[b] == v[b]);
            }
        }
        while j > 0 && recency_order_exec(&rows[j - 1], &rows[j]) > 0
            invariant
                0 <= j <= i < n,
                n == rows.len(),
                entries_view(rows@).to_multiset() == orig.to_multiset(),
                forall|a: int, b: int|
                    0 <= a < b <= i && a != j && b != j ==> recency_order(
                        #[trigger] entries_view(rows@)[a],
                        #[trigger] entries_view(rows@)[b],
                    ) <= 0,
                forall|b: int|
                    j < b <= i ==> recency_order(
                        entries_view(rows@)[j as int],
                        #[trigger] entries_view(rows@)[b],
                    ) < 0,
            decreases j,
        {
            let ghost before = entries_view(rows@);
            let x = rows.remove(j - 1);
            rows.insert(j, x);
            proof {
                let v = entries_view(rows@);
                assert(v =~= before.update(j - 1, before[j as int]).update(j as int, before[j - 1]));
                lemma_swap_ms(before, j - 1, j as int);
                lemma_recency_order(before[j - 1], before[j as int], before[j as int]);
                assert forall|a: int, b: int|
                    0 <= a < b <= i && a != j - 1 && b != j - 1 implies recency_order(
                        #[trigger] v[a],
                        #[trigger] v[b],
                    ) <= 0 by {
                    let oa = if a == j {
                        j - 1
                    } else {
                        a
                    };
                    let ob = if b == j {
                        j - 1
                    } else {
                        b
                    };
                    assert(v[a] == before[oa]);
                    assert(v[b] == before[ob]);
                    assert(recency_order(before[oa], before[ob]) <= 0);
                }
                assert forall|b: int| j - 1 < b <= i implies recency_order(
                    v[j - 1],
                    #[trigger] v[b],
                ) < 0 by {
                    if b != j {
                        assert(v[b] == before[b]);
                        assert(recency_order(before[j as int], before[b]) < 0);
                    }
                }
            }
            j = j - 1;
        }
        proof {
            let v = entries_view(rows@);
            assert forall|a: int, b: int| 0 <= a < b < i + 1 implies recency_order(
                #[trigger] v.take(i + 1)[a],
                #[trigger] v.take(i + 1)[b],
            ) <= 0 by {
                assert(v.take(i + 1)[a] == v[a]);
                assert(v.take(i + 1)[b] == v[b]);
                if b == j && a < j - 1 {
                    assert(recency_order(v[a], v[j - 1]) <= 0);
                    lemma_recency_order(v[a], v[j - 1], v[j as int]);
                }
            }
        }
        i = i + 1;
    }
    proof {
        assert(entries_view(rows@).take(n as int) =~= entries_view(rows@));
        assert(orig == entries_view(map@));
    }
    rows
}

// ---------------------------------------------------------------------------
// Usage lines
// ---------------------------------------------------------------------------

/// One usage window as shown: its bar, `{n}%`, the reset text, and the
/// rounded quota left (`None` for an unavailable window).
#[derive(Debug, Clone)]
pub struct UsageLine {
    pub bar: String,
    pub percent: String,
    pub reset: String,
    pub left_percent: Option<i64>,
}

impl UsageLine {
    /// The line of an unavailable window: the text as its bar.
    pub fn unavailable(text: &str) -> (res: UsageLine)
        ensures
            res.bar@ == text@,
            res.percent@.len() == 0,
            res.reset@.len() == 0,
            res.left_percent is None,
    {
        UsageLine { bar: owned(text), percent: String::new(), reset: String::new(), left_percent: None }
    }
}

/// A usage bar of twenty cells with `filled` (at most twenty) full ones.
pub open spec fn bar_text(filled: nat) -> Seq<char> {
    let f = if filled > 20 {
        20
    } else {
        filled
    };
    Seq::new(f, |i: int| '▮') + Seq::new((20 - f) as nat, |i: int| '▯')
}

/// A usage bar with the given number of full cells.
pub fn render_bar(filled: usize) -> (res: String)
    ensures
        res@ == bar_text(filled as nat),
{
    let f: usize = if filled > 20 {
        20
    } else {
        filled
    };
    let mut out = String::new();
    let mut k: usize = 0;
    while k < 20
        invariant
            k <= 20,
            out@ == bar_text(filled as nat).take(k as int),
            f == (if filled > 20 {
                20
            } else {
                filled
            }),
        decreases 20 - k,
    {
        if k < f {
            out.push('▮');
        } else {
            out.push('▯');
        }
        k = k + 1;
        assert(out@ =~= bar_text(filled as nat).take(k as int));
    }
    assert(bar_text(filled as nat).take(20) =~= bar_text(filled as nat));
    out
}

/// The text without terminal style sequences (`ESC [ ... m`).
#[verifier::opaque]
pub open spec fn without_ansi(s: Seq<char>) -> Seq<char>
    decreases s.len(),
{
    if s.len() == 0 {
        Seq::empty()
    } else if s[0] == '\x1b' && s.len() > 1 && s[1] == '[' {
        let rest = s.skip(2);
        if rest.contains('m') {
            let k = crate::text::first_pos(rest, 'm');
            proof {
                crate::text::lemma_first_pos(rest, 'm');
            }
            without_ansi(rest.skip(k + 1))
        } else {
            Seq::empty()
        }
    } else {
        seq![s[0]] + without_ansi(s.drop_first())
    }
}

proof fn lemma_ansi_step(s: Seq<char>)
    ensures
        s.len() == 0 ==> without_ansi(s) == Seq::<char>::empty(),
        s.len() > 0 && !(s[0] == '\x1b' && s.len() > 1 && s[1] == '[') ==> without_ansi(s) == seq![
            s[0],
        ] + without_ansi(s.drop_first()),
        s.len() > 1 && s[0] == '\x1b' && s[1] == '[' && !s.skip(2).contains('m') ==> without_ansi(
            s,
        ) == Seq::<char>::empty(),
        s.len() > 1 && s[0] == '\x1b' && s[1] == '[' && s.skip(2).contains('m') ==> without_ansi(s)
            == without_ansi(s.skip(2).skip(crate::text::first_pos(s.skip(2), 'm') + 1)),
{
    reveal(without_ansi);
}

/// A text without its terminal style sequences.
pub fn strip_ansi(input: &str) -> (res: String)
    ensures
        res@ == without_ansi(input@),
{
    let v = chars_of(input);
    let mut out: Vec<char> = Vec::new();
    let mut i: usize = 0;
    assert(v@.skip(0) =~= v@);
    assert(out@ + without_ansi(v@.skip(0)) =~= without_ansi(v@));
    proof {
        lemma_ansi_step(Seq::<char>::empty());
    }
    while i < v.len()
        invariant
            i <= v.len(),
            v@ == input@,
            out@ + without_ansi(v@.skip(i as int)) == without_ansi(v@),
        decreases v.len() - i,
    {
        let ghost rest = v@.skip(i as int);
        proof {
            lemma_ansi_step(rest);
        }
        if v[i] == '\x1b' && i + 1 < v.len() && v[i + 1] == '[' {
            let tail = crate::text::slice_range(&v, i + 2, v.len());
            assert(tail@ =~= rest.skip(2));
            match crate::text::position_of(&tail, 'm') {
                Some(k) => {
                    proof {
                        crate::text::lemma_index_of_first(tail@, 'm', k as int);
                        assert(tail@.skip(k + 1) =~= v@.skip(i + 2 + k + 1));
                    }
                    i = i + 2 + k + 1;
                },
                None => {
                    proof {
                        assert(v@.skip(v.len() as int) =~= Seq::<char>::empty());
                        lemma_ansi_step(v@.skip(v.len() as int));
                        assert(out@ + without_ansi(v@.skip(v.len() as int)) =~= out@);
                    }
                    i = v.len();
                },
            }
        } else {
            let ghost before = out@;
            out.push(v[i]);
            assert(rest.drop_first() =~= v@.skip(i + 1));
            assert(out@ + without_ansi(v@.skip(i + 1)) =~= before + without_ansi(rest));
            i = i + 1;
        }
    }
    assert(v@.skip(i as int) =~= Seq::<char>::empty());
    assert(out@ =~= out@ + without_ansi(Seq::<char>::empty()));
    string_of(&out)
}

/// The reset text of a line, or `unknown`.
pub open spec fn reset_label_text(reset: Seq<char>) -> Seq<char> {
    if reset.len() == 0 {
        "unknown"@
    } else {
        reset
    }
}

/// A usage line without colour, in plain mode or not, with the bar's style
/// removed where it is dimmed.
pub open spec fn usage_line_text(line: UsageLine, plain: bool, dim: bool) -> Seq<char> {
    let bar = if dim {
        without_ansi(line.bar@)
    } else {
        line.bar@
    };
    let percent = if line.percent@.len() == 0 {
        Seq::empty()
    } else {
        line.percent@ + " left"@
    };
    let resets = "(resets "@ + reset_label_text(line.reset@) + ")"@;
    if plain {
        if percent.len() == 0 {
            resets
        } else {
            percent + " "@ + resets
        }
    } else if percent.len() == 0 {
        bar + " "@ + resets
    } else {
        bar + " "@ + percent + " "@ + resets
    }
}

/// A usage line on a colour terminal outside plain mode: the bar (with its
/// style removed where it is dimmed), the quota left, and the reset time in
/// the dimmed italic style; the whole line dimmed where it is dimmed.
pub open spec fn usage_line_colored(res: Seq<char>, line: UsageLine, dim: bool) -> bool {
    exists|r: Seq<char>|
        #![trigger crate::ui::styled_as(r, "(resets "@ + reset_label_text(line.reset@) + ")"@, crate::ui::paint_prefix(crate::ui::Paint::DimmedItalic))]
        crate::ui::styled_as(
            r,
            "(resets "@ + reset_label_text(line.reset@) + ")"@,
            crate::ui::paint_prefix(crate::ui::Paint::DimmedItalic),
        ) && {
            let bar = if dim {
                without_ansi(line.bar@)
            } else {
                line.bar@
            };
            let f = bar + (if line.percent@.len() == 0 {
                Seq::empty()
            } else {
                " "@ + line.percent@ + " left"@
            }) + " "@ + r;
            if dim {
                crate::ui::styled_as(res, f, crate::ui::paint_prefix(crate::ui::Paint::Dimmed))
            } else {
                res == f
            }
        }
}

/// One usage line: the bar (with its colour removed where it is dimmed), the
/// quota left and the reset time.
pub fn format_usage_line(ui: &crate::ui::Ui, line: &UsageLine, dim: bool, use_color: bool) -> (res:
    String)
    ensures
        !use_color ==> res@ == usage_line_text(*line, ui.plain, dim),
        ui.plain ==> res@ == usage_line_text(*line, true, dim),
        use_color && !ui.plain ==> usage_line_colored(res@, *line, dim),
{
    let reset = if line.reset.as_str().is_empty() {
        owned("unknown")
    } else {
        line.reset.clone()
    };
    let percent = if line.percent.as_str().is_empty() {
        String::new()
    } else {
        concat(line.percent.as_str(), " left")
    };
    let text = concat3("(resets ", reset.as_str(), ")");
    let resets = ui.style_text(text.as_str(), use_color, crate::ui::Paint::DimmedItalic);
    if ui.plain {
        let mut out = String::new();
        if !percent.as_str().is_empty() {
            push_str(&mut out, percent.as_str());
        }
        if !resets.as_str().is_empty() {
            if !out.as_str().is_empty() {
                out.push(' ');
            }
            push_str(&mut out, resets.as_str());
        }
        proof {
            reveal_strlit(" ");
            reveal_strlit(" left");
            reveal_strlit("(resets ");
        }
        assert(out@ =~= usage_line_text(*line, ui.plain, dim));
        return out;
    }
    let ghost r = resets@;
    let resets = if resets.as_str().is_empty() {
        resets
    } else {
        concat(" ", resets.as_str())
    };
    let bar = if dim {
        strip_ansi(line.bar.as_str())
    } else {
        line.bar.clone()
    };
    let formatted = if percent.as_str().is_empty() {
        concat(bar.as_str(), resets.as_str())
    } else {
        concat3(bar.as_str(), " ", concat(percent.as_str(), resets.as_str()).as_str())
    };
    proof {
        reveal_strlit(" ");
        reveal_strlit(" left");
        reveal_strlit("(resets ");
    }
    let ghost f = (if dim {
        without_ansi(line.bar@)
    } else {
        line.bar@
    }) + (if line.percent@.len() == 0 {
        Seq::empty()
    } else {
        " "@ + line.percent@ + " left"@
    }) + " "@ + r;
    assert(use_color ==> formatted@ =~= f);
    if dim && use_color {
        let out = crate::ui::paint_styled(formatted.as_str(), crate::ui::Paint::Dimmed);
        assert(crate::ui::styled_as(r, "(resets "@ + reset_label_text(line.reset@) + ")"@, crate::ui::paint_prefix(crate::ui::Paint::DimmedItalic)));
        out
    } else {
        assert(!use_color ==> formatted@ =~= usage_line_text(*line, ui.plain, dim));
        proof {
            if use_color {
                assert(crate::ui::styled_as(r, "(resets "@ + reset_label_text(line.reset@) + ")"@, crate::ui::paint_prefix(crate::ui::Paint::DimmedItalic)));
            }
        }
        formatted
    }
}

/// The usage lines of the 5-hour and weekly windows: the available ones (the
/// others dimmed where one is at zero), or the unavailable text.
pub fn format_usage(
    ui: &crate::ui::Ui,
    five: UsageLine,
    weekly: UsageLine,
    unavailable_text: &str,
    use_color: bool,
) -> (res: Vec<String>)
    ensures
        five.left_percent is None && weekly.left_percent is None ==> res.len() == 1 && (!use_color
            ==> res@[0]@ == (if ui.plain {
            "INFO: "@ + unavailable_text@
        } else {
            unavailable_text@
        })),
        !(five.left_percent is None && weekly.left_percent is None) && !use_color ==> strings_view(
            res@,
        ) == (if five.left_percent is Some {
            seq![usage_line_text(five, ui.plain, false)]
        } else {
            Seq::empty()
        }) + (if weekly.left_percent is Some {
            seq![usage_line_text(weekly, ui.plain, false)]
        } else {
            Seq::empty()
        }),
        five.left_percent is None && weekly.left_percent is None && ui.plain ==> res@[0]@ == "INFO: "@
            + unavailable_text@,
        five.left_percent is None && weekly.left_percent is None && use_color && !ui.plain
            ==> crate::ui::painted(res@[0]@, unavailable_text@),
        !(five.left_percent is None && weekly.left_percent is None) && use_color && !ui.plain ==> {
            let five_zero = five.left_percent == Some(0i64);
            let weekly_zero = weekly.left_percent == Some(0i64);
            let both = five.left_percent is Some && weekly.left_percent is Some;
            let dim_five = both && weekly_zero && !five_zero;
            let dim_weekly = both && five_zero && !weekly_zero;
            &&& res.len() == (if five.left_percent is Some { 1int } else { 0int }) + (if weekly.left_percent is Some { 1int } else { 0int })
            &&& five.left_percent is Some ==> usage_line_colored(res@[0]@, five, dim_five)
            &&& weekly.left_percent is Some ==> usage_line_colored(res@[res.len() - 1]@, weekly, dim_weekly)
        },
{
    let mut available: Vec<UsageLine> = Vec::new();
    let has_five = five.left_percent.is_some();
    let has_weekly = weekly.left_percent.is_some();
    if !has_five && !has_weekly {
        return vec![format_usage_unavailable(ui, unavailable_text, use_color)];
    }
    let five_zero = match five.left_percent {
        Some(p) => p == 0,
        None => false,
    };
    let weekly_zero = match weekly.left_percent {
        Some(p) => p == 0,
        None => false,
    };
    let has_zero = five_zero || weekly_zero;
    let multiple = has_five && has_weekly;
    let mut out: Vec<String> = Vec::new();
    if has_five {
        let dim = use_color && multiple && has_zero && !five_zero;
        out.push(format_usage_line(ui, &five, dim, use_color));
    }
    if has_weekly {
        let dim = use_color && multiple && has_zero && !weekly_zero;
        out.push(format_usage_line(ui, &weekly, dim, use_color));
    }
    assert(!use_color ==> strings_view(out@) =~= (if five.left_percent is Some {
        seq![usage_line_text(five, ui.plain, false)]
    } else {
        Seq::empty()
    }) + (if weekly.left_percent is Some {
        seq![usage_line_text(weekly, ui.plain, false)]
    } else {
        Seq::empty()
    }));
    out
}

/// The last-used map after reading the usage file: the normalized entries,
/// and the new contents to write where they differ from the file's.
pub fn ensure_usage(contents: &str, ids: &[String]) -> (res: (Vec<(String, u64)>, Option<String>))
    ensures
        normalized_usage(
            entries_view(res.0@),
            usage_entries(crate::ui::lines_of(contents@)),
            strings_view(ids@),
        ),
        match res.1 {
            Some(c) => c@ == usage_contents(entries_view(res.0@)) && c@ != contents@,
            None => usage_contents(entries_view(res.0@)) == contents@,
        },
{
    let entries = parse_usage_entries(contents);
    let map = normalize_usage(entries.as_slice(), ids);
    let expected = format_usage_contents(map.as_slice());
    if crate::text::str_eq(expected.as_str(), contents) {
        (map, None)
    } else {
        (map, Some(expected))
    }
}

} // verus!
