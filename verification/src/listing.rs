//! The entries of `list` and `status`: what each saved or current profile
//! shows, the decisions around fetching its usage, and how the entries are
//! laid out.
use crate::auth::{
    email_and_plan, extract_email_and_plan, is_api_key_profile, is_api_key_tokens, opt_seq,
    profile_error, Tokens,
};
use crate::profile_store::ProfileIndexEntry;
use crate::text::{concat, concat3, eq_ignore_case, owned, push_str};
use crate::ui::{normalized_error, profile_display_text, shows_last_used, Ui};
use crate::usage::UsageFetchError;
use vstd::prelude::*;

verus! {

/// A profile as `list` and `status` show it.
#[derive(Clone, Debug, PartialEq, Eq)]
pub struct Entry {
    pub display: String,
    pub last_used: String,
    pub details: Vec<String>,
    pub error_summary: Option<String>,
    pub always_show_details: bool,
    pub is_current: bool,
}

/// What is shown of a profile's identity.
#[derive(Clone, Debug, PartialEq, Eq)]
pub struct ProfileInfo {
    pub display: String,
    pub email: Option<String>,
    pub plan: Option<String>,
    pub is_free: bool,
}

/// Texts of strings.
pub open spec fn texts(v: Seq<String>) -> Seq<Seq<char>> {
    Seq::new(v.len(), |i: int| v[i]@)
}

/// The one-line summary of an error: the label, then the normalized
/// message.
pub open spec fn error_summary_text(label: Seq<char>, message: Seq<char>) -> Seq<char> {
    label + ": "@ + normalized_error(message)
}

/// The one-line summary of an error.
pub fn error_summary(label: &str, message: &str) -> (res: String)
    ensures
        res@ == error_summary_text(label@, message@),
{
    let m = crate::ui::normalize_error(message);
    concat3(label, ": ", m.as_str())
}

/// A display with the reserved marker where the profile is reserved.
pub open spec fn marked(display: Seq<char>, reserved: bool) -> Seq<char> {
    if reserved {
        display + " [reserved]"@
    } else {
        display
    }
}

/// A display with the reserved marker where the profile is reserved.
pub fn with_reserved_marker(display: String, reserved: bool) -> (res: String)
    ensures
        res@ == marked(display@, reserved),
{
    if reserved {
        concat(display.as_str(), " [reserved]")
    } else {
        display
    }
}

/// The email and plan shown for a profile: from its login where it could
/// be read, else from its index entry, else none.
pub open spec fn shown_identity(tokens: Option<Tokens>, fallback: Option<ProfileIndexEntry>) -> (
    Option<Seq<char>>,
    Option<Seq<char>>,
) {
    match tokens {
        Some(t) => email_and_plan(t),
        None => match fallback {
            Some(e) => (opt_seq(e.email), opt_seq(e.plan)),
            None => (None, None),
        },
    }
}

/// Whether a plan is the free plan.
pub open spec fn free_plan(plan: Option<Seq<char>>) -> bool {
    match plan {
        Some(p) => eq_ignore_case(p, seq!['f', 'r', 'e', 'e']),
        None => false,
    }
}

/// A display on a colour terminal: the styled badges of the identity, with
/// the reserved marker where the profile is reserved.
pub open spec fn display_colored(
    d: Seq<char>,
    email: Option<Seq<char>>,
    plan: Option<Seq<char>>,
    label: Option<Seq<char>>,
    reserved: bool,
) -> bool {
    exists|b: Seq<char>|
        #![trigger crate::ui::profile_display_colored(b, email, plan, label)]
        crate::ui::profile_display_colored(b, email, plan, label) && d == marked(b, reserved)
}

/// What is shown of a profile's identity, from its login where it could be
/// read, else from its index entry (which also marks it reserved).
pub fn profile_info_with_fallback(
    ui: &Ui,
    tokens: Option<&Tokens>,
    fallback: Option<&ProfileIndexEntry>,
    label: Option<String>,
    is_current: bool,
    use_color: bool,
) -> (res: ProfileInfo)
    ensures
        ({
            let (e, p) = shown_identity(
                match tokens {
                    Some(t) => Some(*t),
                    None => None,
                },
                match fallback {
                    Some(f) => Some(*f),
                    None => None,
                },
            );
            let reserved = match fallback {
                Some(f) => f.reserved,
                None => false,
            };
            &&& opt_seq(res.email) == e
            &&& opt_seq(res.plan) == p
            &&& res.is_free == free_plan(p)
            &&& !use_color ==> res.display@ == marked(
                profile_display_text(e, p, opt_seq(label)),
                reserved,
            )
            &&& use_color ==> display_colored(res.display@, e, p, opt_seq(label), reserved)
        }),
{
    let (email, plan) = match tokens {
        Some(t) => extract_email_and_plan(t),
        None => match fallback {
            Some(e) => (e.email.clone(), e.plan.clone()),
            None => (None, None),
        },
    };
    let is_free = crate::auth::is_free_plan(
        match &plan {
            Some(p) => Some(p.as_str()),
            None => None,
        },
    );
    let display = ui.format_profile_display(email.clone(), plan.clone(), label, is_current, use_color);
    let reserved = match fallback {
        Some(f) => f.reserved,
        None => false,
    };
    let display = with_reserved_marker(display, reserved);
    ProfileInfo { display, email, plan, is_free }
}

/// The entry of a profile that could not be read.
pub fn make_error(
    ui: &Ui,
    label: Option<String>,
    index_entry: Option<&ProfileIndexEntry>,
    use_color: bool,
    last_used: String,
    message: &str,
    summary_label: &str,
    is_current: bool,
) -> (res: Entry)
    ensures
        ({
            let (e, p) = shown_identity(
                None,
                match index_entry {
                    Some(f) => Some(*f),
                    None => None,
                },
            );
            let reserved = match index_entry {
                Some(f) => f.reserved,
                None => false,
            };
            &&& !use_color ==> res.display@ == marked(
                profile_display_text(e, p, opt_seq(label)),
                reserved,
            )
            &&& use_color ==> display_colored(res.display@, e, p, opt_seq(label), reserved)
            &&& res.last_used == last_used
            &&& res.details.len() == 1
            &&& !use_color ==> res.details@[0]@ == "Error: "@ + normalized_error(message@)
            &&& use_color ==> crate::ui::error_colored(res.details@[0]@, message@)
            &&& res.error_summary matches Some(s) && s@ == error_summary_text(
                summary_label@,
                message@,
            )
            &&& !res.always_show_details
            &&& res.is_current == is_current
        }),
{
    let info = profile_info_with_fallback(ui, None, index_entry, label, is_current, use_color);
    Entry {
        display: info.display,
        last_used,
        details: vec![crate::ui::format_error(message, use_color)],
        error_summary: Some(error_summary(summary_label, message)),
        always_show_details: false,
        is_current,
    }
}

// ---------------------------------------------------------------------------
// Usage details
// ---------------------------------------------------------------------------

/// The usage details of a profile, or the request to fetch them.
#[derive(Debug)]
pub enum DetailStart {
    /// The lines are known without a request.
    Done { lines: Vec<String>, summary: Option<String> },
    /// The usage has to be fetched with these values.
    Fetch { base_url: String, access_token: String, account_id: String, unavailable_text: String },
}

/// What to do after a usage fetch.
#[derive(Debug)]
pub enum DetailAfterFetch {
    Done { lines: Vec<String>, summary: Option<String> },
    /// The token was refused: refresh it, then fetch once more.
    Refresh,
}

/// What to do after a token refresh.
#[derive(Debug)]
pub enum DetailAfterRefresh {
    Done { lines: Vec<String>, summary: Option<String> },
    /// Fetch the usage again with the new access token.
    Fetch { access_token: String },
}

/// The line for unavailable usage without color: `INFO: ` before it in
/// plain mode.
pub open spec fn unavailable_line(plain: bool, text: Seq<char>) -> Seq<char> {
    if plain {
        "INFO: "@ + text
    } else {
        text
    }
}

/// The error line of a message without color.
pub open spec fn error_line(message: Seq<char>) -> Seq<char> {
    "Error: "@ + normalized_error(message)
}

/// Whether an outcome shows exactly one line, the unavailable-usage line
/// for a text, and no summary.
pub open spec fn shows_unavailable(
    lines: Seq<Seq<char>>,
    summary: Option<Seq<char>>,
    ui: Ui,
    use_color: bool,
    text: Seq<char>,
) -> bool {
    &&& lines.len() == 1
    &&& (ui.plain || !use_color) ==> lines[0] == unavailable_line(ui.plain, text)
    &&& (!ui.plain && use_color) ==> crate::ui::painted(lines[0], text)
    &&& summary is None
}

/// Whether an outcome shows exactly one error line for a message, with its
/// summary under a label.
pub open spec fn shows_error(
    lines: Seq<Seq<char>>,
    summary: Option<Seq<char>>,
    use_color: bool,
    message: Seq<char>,
    label: Seq<char>,
) -> bool {
    &&& lines.len() == 1
    &&& !use_color ==> lines[0] == error_line(message)
    &&& use_color ==> crate::ui::error_colored(lines[0], message)
    &&& summary == Some(error_summary_text(label, message))
}

/// The text for unavailable usage.
pub open spec fn unavailable_text_of(plan: Option<Seq<char>>) -> Seq<char> {
    if free_plan(plan) {
        "You need a ChatGPT subscription to use Codex CLI"@
    } else {
        "Data not available"@
    }
}

fn unavailable_lines(ui: &Ui, text: &str, use_color: bool) -> (res: Vec<String>)
    ensures
        res.len() == 1,
        (ui.plain || !use_color) ==> res@[0]@ == unavailable_line(ui.plain, text@),
        (!ui.plain && use_color) ==> crate::ui::painted(res@[0]@, text@),
{
    vec![crate::usage::format_usage_unavailable(ui, text, use_color)]
}

fn error_lines(message: &str, label: &str, use_color: bool) -> (res: (Vec<String>, Option<String>))
    ensures
        shows_error(texts(res.0@), opt_seq(res.1), use_color, message@, label@),
{
    let lines = vec![crate::ui::format_error(message, use_color)];
    let summary = Some(error_summary(label, message));
    proof {
        assert(texts(lines@).len() == 1);
    }
    (lines, summary)
}

/// What the usage details of a profile start with: none for an API-key
/// login (a note when usage is shown); for a login with a problem, the
/// unavailable note where usage is shown and only the tokens are missing,
/// else the error; where usage is shown, a fetch (or nothing without a
/// service URL, an access token or an account id); else the unavailable
/// note for a free plan, or nothing.
pub fn detail_start(
    ui: &Ui,
    tokens: &Tokens,
    email: Option<&str>,
    plan: Option<&str>,
    show_usage: bool,
    base_url: Option<&str>,
    use_color: bool,
) -> (res: DetailStart)
    ensures
        ({
            let p = match plan {
                Some(x) => Some(x@),
                None => None,
            };
            let text = unavailable_text_of(p);
            if is_api_key_tokens(*tokens) {
                if show_usage {
                    res matches DetailStart::Done { lines, summary } && shows_unavailable(
                        texts(lines@),
                        opt_seq(summary),
                        *ui,
                        use_color,
                        "Usage unavailable for API key login"@,
                    )
                } else {
                    res matches DetailStart::Done { lines, summary } && lines.len() == 0
                        && summary is None
                }
            } else if email is None || plan is None || crate::auth::account_id_of(*tokens) is None
                || tokens.access_token is None {
                let message = if email is None || plan is None {
                    "profile missing id_token email/plan"@
                } else if crate::auth::account_id_of(*tokens) is None {
                    "profile missing tokens.account_id"@
                } else {
                    "profile missing tokens.access_token"@
                };
                if show_usage && email is Some && plan is Some {
                    res matches DetailStart::Done { lines, summary } && shows_unavailable(
                        texts(lines@),
                        opt_seq(summary),
                        *ui,
                        use_color,
                        text,
                    )
                } else {
                    res matches DetailStart::Done { lines, summary } && shows_error(
                        texts(lines@),
                        opt_seq(summary),
                        use_color,
                        message,
                        "Error"@,
                    )
                }
            } else if show_usage {
                match base_url {
                    None => res matches DetailStart::Done { lines, summary } && lines.len() == 0
                        && summary is None,
                    Some(u) => res matches DetailStart::Fetch {
                        base_url,
                        access_token,
                        account_id,
                        unavailable_text,
                    } && base_url@ == u@ && access_token@ == tokens.access_token->0@
                        && crate::auth::account_id_of(*tokens) == Some(account_id@)
                        && unavailable_text@ == text,
                }
            } else if free_plan(p) {
                res matches DetailStart::Done { lines, summary } && shows_unavailable(
                    texts(lines@),
                    opt_seq(summary),
                    *ui,
                    use_color,
                    text,
                )
            } else {
                res matches DetailStart::Done { lines, summary } && lines.len() == 0
                    && summary is None
            }
        }),
{
    let plan_is_free = crate::auth::is_free_plan(plan);
    if is_api_key_profile(tokens) {
        if show_usage {
            let lines = unavailable_lines(ui, "Usage unavailable for API key login", use_color);
            proof {
                reveal_strlit("Usage unavailable for API key login");
            }
            return DetailStart::Done { lines, summary: None };
        }
        return DetailStart::Done { lines: Vec::new(), summary: None };
    }
    let text = crate::usage::usage_unavailable(plan_is_free);
    if let Some(message) = profile_error(tokens, email, plan) {
        let missing_access = tokens.access_token.is_none() || crate::auth::token_account_id(
            tokens,
        ).is_none();
        if show_usage && missing_access && email.is_some() && plan.is_some() {
            let lines = unavailable_lines(ui, text, use_color);
            return DetailStart::Done { lines, summary: None };
        }
        let (lines, summary) = error_lines(message, "Error", use_color);
        proof {
            reveal_strlit("Error");
        }
        return DetailStart::Done { lines, summary };
    }
    if show_usage {
        let u = match base_url {
            Some(u) => u,
            None => return DetailStart::Done { lines: Vec::new(), summary: None },
        };
        let access_token = match &tokens.access_token {
            Some(a) => a.clone(),
            None => return DetailStart::Done { lines: Vec::new(), summary: None },
        };
        let account_id = match crate::auth::token_account_id(tokens) {
            Some(a) => owned(a),
            None => return DetailStart::Done { lines: Vec::new(), summary: None },
        };
        return DetailStart::Fetch {
            base_url: owned(u),
            access_token,
            account_id,
            unavailable_text: owned(text),
        };
    }
    if plan_is_free {
        let lines = unavailable_lines(ui, text, use_color);
        return DetailStart::Done { lines, summary: None };
    }
    DetailStart::Done { lines: Vec::new(), summary: None }
}

/// The message of a failed usage fetch.
pub open spec fn fetch_error_message(e: UsageFetchError) -> Seq<char> {
    match e {
        UsageFetchError::Status(c) => "Error: failed to fetch usage: http status: "@
            + crate::num::dec_seq(c as nat),
        UsageFetchError::Transport(t) => "Error: failed to fetch usage: "@ + t@,
        UsageFetchError::Parse(t) => "Error: failed to parse usage: "@ + t@,
    }
}

/// What a usage fetch leads to: its lines; a refresh where the token was
/// refused (401) and a refresh is allowed; else the usage error.
pub fn detail_after_fetch(result: Result<Vec<String>, UsageFetchError>, allow_401_refresh: bool, use_color: bool) -> (res:
    DetailAfterFetch)
    ensures
        match result {
            Ok(lines) => res matches DetailAfterFetch::Done { lines: l, summary } && l == lines
                && summary is None,
            Err(e) => if allow_401_refresh && e == UsageFetchError::Status(401) {
                res is Refresh
            } else {
                res matches DetailAfterFetch::Done { lines, summary } && shows_error(
                    texts(lines@),
                    opt_seq(summary),
                    use_color,
                    fetch_error_message(e),
                    "Usage error"@,
                )
            },
        },
{
    match result {
        Ok(lines) => DetailAfterFetch::Done { lines, summary: None },
        Err(e) => {
            if allow_401_refresh && e.status_code() == Some(401) {
                return DetailAfterFetch::Refresh;
            }
            let m = e.message();
            let (lines, summary) = error_lines(m.as_str(), "Usage error", use_color);
            proof {
                reveal_strlit("Usage error");
            }
            DetailAfterFetch::Done { lines, summary }
        },
    }
}

/// What a token refresh leads to: its error; the error that the refreshed
/// login has no access token; or a second fetch with the new token.
pub fn detail_after_refresh(refresh: Result<(), String>, access_token: Option<&str>, use_color: bool) -> (res:
    DetailAfterRefresh)
    ensures
        match refresh {
            Err(e) => res matches DetailAfterRefresh::Done { lines, summary } && shows_error(
                texts(lines@),
                opt_seq(summary),
                use_color,
                e@,
                "Auth error"@,
            ),
            Ok(()) => match access_token {
                None => res matches DetailAfterRefresh::Done { lines, summary } && shows_error(
                    texts(lines@),
                    opt_seq(summary),
                    use_color,
                    "Error: refreshed access_token is missing."@,
                    "Auth error"@,
                ),
                Some(t) => res matches DetailAfterRefresh::Fetch { access_token: a } && a@ == t@,
            },
        },
{
    proof {
        reveal_strlit("Auth error");
    }
    match refresh {
        Err(e) => {
            let (lines, summary) = error_lines(e.as_str(), "Auth error", use_color);
            DetailAfterRefresh::Done { lines, summary }
        },
        Ok(()) => match access_token {
            None => {
                let (lines, summary) = error_lines(
                    "Error: refreshed access_token is missing.",
                    "Auth error",
                    use_color,
                );
                proof {
                    reveal_strlit("Error: refreshed access_token is missing.");
                }
                DetailAfterRefresh::Done { lines, summary }
            },
            Some(t) => DetailAfterRefresh::Fetch { access_token: owned(t) },
        },
    }
}

/// The lines after the second fetch: its lines, or its usage error.
pub fn detail_after_retry(result: Result<Vec<String>, UsageFetchError>, use_color: bool) -> (res: (
    Vec<String>,
    Option<String>,
))
    ensures
        match result {
            Ok(lines) => res.0 == lines && res.1 is None,
            Err(e) => shows_error(
                texts(res.0@),
                opt_seq(res.1),
                use_color,
                fetch_error_message(e),
                "Usage error"@,
            ),
        },
{
    match result {
        Ok(lines) => (lines, None),
        Err(e) => {
            let m = e.message();
            proof {
                reveal_strlit("Usage error");
            }
            error_lines(m.as_str(), "Usage error", use_color)
        },
    }
}

// ---------------------------------------------------------------------------
// Refreshing logins for status
// ---------------------------------------------------------------------------

/// Whether a login is refreshed before its usage is shown.
#[derive(Debug, Clone, PartialEq, Eq)]
pub enum RefreshPlan {
    Skip,
    Refresh,
    Fail(String),
}

/// How a refresh went.
#[derive(Debug, Clone, PartialEq, Eq)]
pub enum RefreshAttempt {
    Skipped,
    Succeeded,
    Failed(String),
}

/// The message for a login that cannot be refreshed.
pub open spec fn missing_refresh_message() -> Seq<char> {
    "Error: profile is missing refresh_token; run `codex login` and save it again."@
}

/// Whether a login is refreshed before its usage is shown: not when usage
/// is not shown or for an API-key login; a failure without a refresh
/// token; else a refresh.
pub fn refresh_plan(tokens: &Tokens, show_usage: bool) -> (res: RefreshPlan)
    ensures
        !show_usage || is_api_key_tokens(*tokens) ==> res == RefreshPlan::Skip,
        show_usage && !is_api_key_tokens(*tokens) ==> if crate::auth::non_empty(
            opt_seq(tokens.refresh_token),
        ) is None {
            res matches RefreshPlan::Fail(m) && m@ == missing_refresh_message()
        } else {
            res == RefreshPlan::Refresh
        },
{
    if !show_usage || is_api_key_profile(tokens) {
        return RefreshPlan::Skip;
    }
    let present = match &tokens.refresh_token {
        Some(t) => !t.as_str().is_empty(),
        None => false,
    };
    if !present {
        return RefreshPlan::Fail(
            owned("Error: profile is missing refresh_token; run `codex login` and save it again."),
        );
    }
    RefreshPlan::Refresh
}

/// A warning line as `format_warning` gives it: `WARNING: ` or `Warning: `
/// and the message, in the warning style where colour is on.
pub open spec fn warning_line(line: Seq<char>, ui: Ui, use_color: bool, message: Seq<char>) -> bool {
    let text = if ui.plain {
        "WARNING: "@ + message
    } else {
        "Warning: "@ + message
    };
    &&& (!use_color || ui.plain) ==> line == text
    &&& (use_color && !ui.plain) ==> crate::ui::styled_as(
        line,
        text,
        crate::ui::paint_prefix(crate::ui::Paint::YellowDimmedItalic),
    )
}

/// The details and summary after a failed refresh: its warning first, and
/// its summary where there was none.
pub fn note_refresh_failure(
    ui: &Ui,
    details: Vec<String>,
    summary: Option<String>,
    attempt: &RefreshAttempt,
    use_color: bool,
) -> (res: (Vec<String>, Option<String>))
    ensures
        match attempt {
            RefreshAttempt::Failed(err) => {
                &&& res.0.len() == details.len() + 1
                &&& texts(res.0@).drop_first() == texts(details@)
                &&& warning_line(res.0@[0]@, *ui, use_color, normalized_error(err@))
                &&& opt_seq(res.1) == match summary {
                    Some(s) => Some(s@),
                    None => Some(error_summary_text("Auth refresh"@, err@)),
                }
            },
            _ => res.0 == details && res.1 == summary,
        },
{
    match attempt {
        RefreshAttempt::Failed(err) => {
            let m = crate::ui::normalize_error(err.as_str());
            let warning = ui.format_warning(m.as_str(), use_color);
            let mut out = details;
            let ghost before = texts(out@);
            out.insert(0, warning);
            proof {
                assert(texts(out@).drop_first() =~= before);
            }
            let summary = match summary {
                Some(s) => Some(s),
                None => {
                    proof {
                        reveal_strlit("Auth refresh");
                    }
                    Some(error_summary("Auth refresh", err.as_str()))
                },
            };
            (out, summary)
        },
        _ => (details, summary),
    }
}

// ---------------------------------------------------------------------------
// Layout
// ---------------------------------------------------------------------------

/// The separator lines between entries: the separator where there is one,
/// else an empty line unless in plain mode without plain spacing.
pub open spec fn separator_lines(plain: bool, separator: Option<Seq<char>>, allow_plain_spacing: bool) -> Seq<
    Seq<char>,
> {
    match separator {
        Some(s) => seq![s],
        None => if !plain || allow_plain_spacing {
            seq![Seq::empty()]
        } else {
            Seq::empty()
        },
    }
}

/// Adds the separator between entries.
pub fn push_separator(ui: &Ui, lines: &mut Vec<String>, separator: Option<&str>, allow_plain_spacing: bool)
    ensures
        texts(final(lines)@) == texts(old(lines)@) + separator_lines(
            ui.plain,
            match separator {
                Some(s) => Some(s@),
                None => None,
            },
            allow_plain_spacing,
        ),
{
    let ghost before = texts(lines@);
    match separator {
        Some(s) => {
            lines.push(owned(s));
            assert(texts(lines@) =~= before + seq![s@]);
        },
        None => {
            if !ui.plain || allow_plain_spacing {
                lines.push(String::new());
                assert(texts(lines@) =~= before + seq![Seq::<char>::empty()]);
            } else {
                assert(texts(lines@) =~= before + Seq::<Seq<char>>::empty());
            }
        },
    }
}

/// The header of an entry without color: its display, then its last-used
/// time in brackets where one is shown.
pub open spec fn header_text(display: Seq<char>, last_used: Seq<char>, is_current: bool) -> Seq<char> {
    display + if shows_last_used(last_used, is_current) {
        " ("@ + last_used + seq![')']
    } else {
        Seq::empty()
    }
}

/// The lines of one entry under a given header line: the header alone
/// (with the error summary after it, where there is one) unless details
/// are shown, else the header and the details.
pub open spec fn entry_lines_with(e: Entry, header: Seq<char>, show_usage: bool) -> Seq<Seq<char>> {
    if !(show_usage || e.always_show_details) {
        match e.error_summary {
            Some(err) => seq![header + "  "@ + err@],
            None => seq![header],
        }
    } else {
        seq![header] + texts(e.details@)
    }
}

/// The last-used time that an entry's header is given.
pub open spec fn header_last_used(e: Entry, show_last_used: bool) -> Seq<char> {
    if show_last_used {
        e.last_used@
    } else {
        Seq::empty()
    }
}

/// The lines of one entry without color.
pub open spec fn entry_lines(e: Entry, show_last_used: bool, show_usage: bool) -> Seq<Seq<char>> {
    entry_lines_with(
        e,
        header_text(e.display@, header_last_used(e, show_last_used), e.is_current),
        show_usage,
    )
}

/// The lines of the first `n` entries under the given header lines, with
/// separators between them.
pub open spec fn rendered_with(
    entries: Seq<Entry>,
    headers: Seq<Seq<char>>,
    n: int,
    show_usage: bool,
    sep: Seq<Seq<char>>,
) -> Seq<Seq<char>>
    decreases n,
{
    if n <= 0 {
        Seq::empty()
    } else {
        rendered_with(entries, headers, n - 1, show_usage, sep) + entry_lines_with(
            entries[n - 1],
            headers[n - 1],
            show_usage,
        ) + if n < entries.len() {
            sep
        } else {
            Seq::empty()
        }
    }
}

/// The header lines of entries without color.
pub open spec fn plain_headers(entries: Seq<Entry>, show_last_used: bool) -> Seq<Seq<char>> {
    Seq::new(
        entries.len(),
        |i: int|
            header_text(
                entries[i].display@,
                header_last_used(entries[i], show_last_used),
                entries[i].is_current,
            ),
    )
}

/// Header lines of entries on a colour terminal: each is the entry's
/// styled display, then its styled last-used time where that is shown.
pub open spec fn colored_headers(hs: Seq<Seq<char>>, entries: Seq<Entry>, show_last_used: bool) -> bool {
    &&& hs.len() == entries.len()
    &&& forall|i: int|
        0 <= i < hs.len() ==> crate::ui::entry_header_colored(
            #[trigger] hs[i],
            entries[i].display@,
            header_last_used(entries[i], show_last_used),
            shows_last_used(header_last_used(entries[i], show_last_used), entries[i].is_current),
        )
}

/// The lines of the first `n` entries without color, with separators
/// between them.
pub open spec fn rendered(
    entries: Seq<Entry>,
    n: int,
    show_last_used: bool,
    show_usage: bool,
    sep: Seq<Seq<char>>,
) -> Seq<Seq<char>> {
    rendered_with(entries, plain_headers(entries, show_last_used), n, show_usage, sep)
}

proof fn lemma_rendered_with_prefix(
    entries: Seq<Entry>,
    a: Seq<Seq<char>>,
    b: Seq<Seq<char>>,
    n: int,
    show_usage: bool,
    sep: Seq<Seq<char>>,
)
    requires
        n <= a.len(),
        n <= b.len(),
        forall|i: int| 0 <= i < n ==> a[i] == b[i],
    ensures
        rendered_with(entries, a, n, show_usage, sep) == rendered_with(entries, b, n, show_usage, sep),
    decreases n,
{
    if n > 0 {
        lemma_rendered_with_prefix(entries, a, b, n - 1, show_usage, sep);
    }
}

/// The lines of entries, with the separator between them. With colour,
/// the lines are those without colour but for the header lines, each of
/// which is the entry's styled header.
pub fn render_entries(
    ui: &Ui,
    entries: &[Entry],
    show_last_used: bool,
    show_usage: bool,
    use_color: bool,
    separator: Option<&str>,
    allow_plain_spacing: bool,
) -> (res: Vec<String>)
    ensures
        !use_color ==> texts(res@) == rendered(
            entries@,
            entries.len() as int,
            show_last_used,
            show_usage,
            separator_lines(
                ui.plain,
                match separator {
                    Some(s) => Some(s@),
                    None => None,
                },
                allow_plain_spacing,
            ),
        ),
        use_color ==> exists|hs: Seq<Seq<char>>|
            #![trigger colored_headers(hs, entries@, show_last_used)]
            colored_headers(hs, entries@, show_last_used) && texts(res@) == rendered_with(
                entries@,
                hs,
                entries.len() as int,
                show_usage,
                separator_lines(
                    ui.plain,
                    match separator {
                        Some(s) => Some(s@),
                        None => None,
                    },
                    allow_plain_spacing,
                ),
            ),
{
    let ghost sep = separator_lines(
        ui.plain,
        match separator {
            Some(s) => Some(s@),
            None => None,
        },
        allow_plain_spacing,
    );
    let ghost plain_hs = plain_headers(entries@, show_last_used);
    let ghost mut hs: Seq<Seq<char>> = Seq::empty();
    let mut lines: Vec<String> = Vec::new();
    let mut idx: usize = 0;
    while idx < entries.len()
        invariant
            idx <= entries.len(),
            sep == separator_lines(
                ui.plain,
                match separator {
                    Some(s) => Some(s@),
                    None => None,
                },
                allow_plain_spacing,
            ),
            plain_hs == plain_headers(entries@, show_last_used),
            hs.len() == idx,
            !use_color ==> forall|i: int| 0 <= i < idx ==> hs[i] == plain_hs[i],
            use_color ==> forall|i: int|
                0 <= i < idx ==> crate::ui::entry_header_colored(
                    #[trigger] hs[i],
                    entries@[i].display@,
                    header_last_used(entries@[i], show_last_used),
                    shows_last_used(
                        header_last_used(entries@[i], show_last_used),
                        entries@[i].is_current,
                    ),
                ),
            texts(lines@) == rendered_with(entries@, hs, idx as int, show_usage, sep),
        decreases entries.len() - idx,
    {
        let entry = &entries[idx];
        let ghost before = texts(lines@);
        let header = ui.format_entry_header(
            entry.display.as_str(),
            if show_last_used {
                entry.last_used.as_str()
            } else {
                ""
            },
            entry.is_current,
            use_color,
        );
        proof {
            reveal_strlit("");
            let old_hs = hs;
            hs = hs.push(header@);
            lemma_rendered_with_prefix(entries@, old_hs, hs, idx as int, show_usage, sep);
            assert(hs[idx as int] == header@);
            assert(entries@[idx as int] == *entry);
            let lu = header_last_used(*entry, show_last_used);
            if !show_last_used {
                assert(lu =~= ""@);
            }
            if use_color {
                assert(crate::ui::entry_header_colored(header@, entry.display@, lu, shows_last_used(lu, entry.is_current)));
                assert forall|i: int| 0 <= i < idx + 1 implies crate::ui::entry_header_colored(
                    #[trigger] hs[i],
                    entries@[i].display@,
                    header_last_used(entries@[i], show_last_used),
                    shows_last_used(header_last_used(entries@[i], show_last_used), entries@[i].is_current),
                ) by {
                    if i < idx {
                        assert(hs[i] == old_hs[i]);
                    }
                }
            } else {
                assert(header@ == plain_hs[idx as int]);
                assert forall|i: int| 0 <= i < idx + 1 implies hs[i] == plain_hs[i] by {
                    if i < idx {
                        assert(hs[i] == old_hs[i]);
                    }
                }
            }
        }
        let show_detail_lines = show_usage || entry.always_show_details;
        if !show_detail_lines {
            match &entry.error_summary {
                Some(err) => {
                    let mut h = header;
                    push_str(&mut h, "  ");
                    push_str(&mut h, err.as_str());
                    lines.push(h);
                },
                None => {
                    lines.push(header);
                },
            }
            proof {
                assert(texts(lines@) =~= before + entry_lines_with(*entry, hs[idx as int], show_usage));
            }
        } else {
            let ghost hv = header@;
            lines.push(header);
            let mut j: usize = 0;
            while j < entry.details.len()
                invariant
                    j <= entry.details.len(),
                    lines.len() == before.len() as int + 1 + j,
                    texts(lines@).take(before.len() as int + 1) == before + seq![hv],
                    texts(lines@).skip(before.len() as int + 1) == texts(entry.details@).take(j as int),
                decreases entry.details.len() - j,
            {
                let ghost prev = texts(lines@);
                lines.push(entry.details[j].clone());
                proof {
                    assert(texts(lines@) =~= prev.push(entry.details@[j as int]@));
                    assert(texts(lines@).take(before.len() as int + 1) =~= prev.take(before.len() as int + 1));
                    assert(texts(lines@).skip(before.len() as int + 1) =~= prev.skip(before.len() as int + 1).push(
                        entry.details@[j as int]@,
                    ));
                    assert(texts(entry.details@).take(j + 1) =~= texts(entry.details@).take(
                        j as int,
                    ).push(entry.details@[j as int]@));
                }
                j = j + 1;
            }
            proof {
                assert(texts(entry.details@).take(entry.details.len() as int) =~= texts(
                    entry.details@,
                ));
                assert(texts(lines@) =~= texts(lines@).take(before.len() as int + 1) + texts(
                    lines@,
                ).skip(before.len() as int + 1));
                assert(texts(lines@) =~= before + entry_lines_with(*entry, hv, show_usage));
            }
        }
        let ghost mid = texts(lines@);
        if idx + 1 < entries.len() {
            push_separator(ui, &mut lines, separator, allow_plain_spacing);
        } else {
            proof {
                assert(texts(lines@) =~= mid + Seq::<Seq<char>>::empty());
            }
        }
        proof {
            assert(entries@[idx as int] == *entry);
            assert(texts(lines@) =~= rendered_with(entries@, hs, idx + 1, show_usage, sep));
        }
        idx = idx + 1;
    }
    proof {
        if !use_color {
            assert(hs =~= plain_hs);
        } else {
            assert(colored_headers(hs, entries@, show_last_used));
        }
    }
    lines
}

/// The text of `list` under given header lines for the current login and
/// the saved profiles: where no profile is saved, the current login's entry
/// alone (or the message that there are no profiles); else the current
/// login's entry, a separator where saved entries follow, and the saved
/// entries, joined by newlines.
pub open spec fn list_text_with(
    plain: bool,
    current: Option<Entry>,
    saved: Seq<Entry>,
    has_saved: bool,
    show_usage: bool,
    sep: Seq<Seq<char>>,
    no_profiles: Seq<char>,
    current_headers: Seq<Seq<char>>,
    saved_headers: Seq<Seq<char>>,
) -> Seq<char> {
    if !has_saved {
        match current {
            Some(c) => crate::ui::join_lines(
                rendered_with(
                    seq![c],
                    current_headers,
                    1,
                    show_usage,
                    separator_lines(plain, None, false),
                ),
            ),
            None => no_profiles,
        }
    } else {
        let head = match current {
            Some(c) => rendered_with(seq![c], current_headers, 1, show_usage, sep) + if saved.len()
                > 0 {
                sep
            } else {
                Seq::empty()
            },
            None => Seq::empty(),
        };
        crate::ui::join_lines(head + rendered_with(saved, saved_headers, saved.len() as int, show_usage, sep))
    }
}

/// The entries of an optional current login.
pub open spec fn current_seq(current: Option<Entry>) -> Seq<Entry> {
    match current {
        Some(c) => seq![c],
        None => Seq::empty(),
    }
}

/// The text of `list` without colour.
pub open spec fn list_text(
    plain: bool,
    current: Option<Entry>,
    saved: Seq<Entry>,
    has_saved: bool,
    show_last_used: bool,
    show_usage: bool,
    sep: Seq<Seq<char>>,
    no_profiles: Seq<char>,
) -> Seq<char> {
    list_text_with(
        plain,
        current,
        saved,
        has_saved,
        show_usage,
        sep,
        no_profiles,
        plain_headers(current_seq(current), show_last_used),
        plain_headers(saved, show_last_used),
    )
}

/// What holds of the text of `list` on a colour terminal: it is the text
/// without colour but for the header line of each entry, which is the
/// entry's styled display and last-used time.
pub open spec fn list_text_colored(
    res: Seq<char>,
    plain: bool,
    current: Option<Entry>,
    saved: Seq<Entry>,
    has_saved: bool,
    show_last_used: bool,
    show_usage: bool,
    sep: Seq<Seq<char>>,
    no_profiles: Seq<char>,
) -> bool {
    exists|hc: Seq<Seq<char>>, hs: Seq<Seq<char>>|
        #![trigger colored_headers(hc, current_seq(current), show_last_used), colored_headers(hs, saved, show_last_used)]
        colored_headers(hc, current_seq(current), show_last_used) && colored_headers(
            hs,
            saved,
            show_last_used,
        ) && res == list_text_with(
            plain,
            current,
            saved,
            has_saved,
            show_usage,
            sep,
            no_profiles,
            hc,
            hs,
        )
}

/// Header lines that count as styled: each display and last-used time as
/// they are.
pub open spec fn header_witness(entries: Seq<Entry>, show_last_used: bool) -> Seq<Seq<char>> {
    Seq::new(
        entries.len(),
        |i: int|
            entries[i].display@ + if shows_last_used(
                header_last_used(entries[i], show_last_used),
                entries[i].is_current,
            ) {
                seq![' '] + header_last_used(entries[i], show_last_used)
            } else {
                Seq::empty()
            },
    )
}

proof fn lemma_colored_headers_exist(entries: Seq<Entry>, show_last_used: bool)
    ensures
        colored_headers(header_witness(entries, show_last_used), entries, show_last_used),
{
    let hs = header_witness(entries, show_last_used);
    assert forall|i: int| 0 <= i < hs.len() implies crate::ui::entry_header_colored(
        #[trigger] hs[i],
        entries[i].display@,
        header_last_used(entries[i], show_last_used),
        shows_last_used(header_last_used(entries[i], show_last_used), entries[i].is_current),
    ) by {
        let lu = header_last_used(entries[i], show_last_used);
        let shown = shows_last_used(lu, entries[i].is_current);
        let d = entries[i].display@;
        let t = if shown {
            seq![' '] + lu
        } else {
            Seq::empty()
        };
        crate::ui::lemma_painted_plain(d);
        crate::ui::lemma_painted_plain(seq![' '] + lu);
        assert(crate::ui::header_part(d, d));
        assert(crate::ui::last_used_part(t, lu, shown));
        assert(hs[i] == d + t);
    }
}

/// The text of `list`.
pub fn list_output(
    ui: &Ui,
    current: Option<Entry>,
    saved: &[Entry],
    has_saved: bool,
    show_last_used: bool,
    show_usage: bool,
    use_color: bool,
    separator: Option<&str>,
    allow_plain_spacing: bool,
    no_profiles: &str,
) -> (res: String)
    ensures
        !use_color ==> res@ == list_text(
            ui.plain,
            current,
            saved@,
            has_saved,
            show_last_used,
            show_usage,
            separator_lines(
                ui.plain,
                match separator {
                    Some(s) => Some(s@),
                    None => None,
                },
                allow_plain_spacing,
            ),
            no_profiles@,
        ),
        use_color ==> list_text_colored(
            res@,
            ui.plain,
            current,
            saved@,
            has_saved,
            show_last_used,
            show_usage,
            separator_lines(
                ui.plain,
                match separator {
                    Some(s) => Some(s@),
                    None => None,
                },
                allow_plain_spacing,
            ),
            no_profiles@,
        ),
{
    proof {
        lemma_colored_headers_exist(saved@, show_last_used);
        lemma_colored_headers_exist(current_seq(current), show_last_used);
    }
    if !has_saved {
        return match current {
            Some(entry) => {
                let one = vec![entry];
                let lines = render_entries(ui, &one, show_last_used, show_usage, use_color, None, false);
                proof {
                    assert(one@ =~= seq![one@[0]]);
                    assert(crate::priority_table::strs(lines@) =~= texts(lines@));
                    assert(one@ == current_seq(current));
                    if use_color {
                        let hc = choose|hc: Seq<Seq<char>>| colored_headers(hc, one@, show_last_used)
                            && texts(lines@) == rendered_with(
                            one@,
                            hc,
                            1,
                            show_usage,
                            separator_lines(ui.plain, None, false),
                        );
                        let hs = header_witness(saved@, show_last_used);
                        assert(colored_headers(hc, current_seq(current), show_last_used));
                        assert(colored_headers(hs, saved@, show_last_used));
                    }
                }
                crate::priority_table::join_newline(&lines)
            },
            None => owned(no_profiles),
        };
    }
    let mut lines: Vec<String> = Vec::new();
    let ghost sep = separator_lines(
        ui.plain,
        match separator {
            Some(s) => Some(s@),
            None => None,
        },
        allow_plain_spacing,
    );
    let ghost cur = current;
    match current {
        Some(entry) => {
            let one = vec![entry];
            let first = render_entries(
                ui,
                &one,
                show_last_used,
                show_usage,
                use_color,
                separator,
                allow_plain_spacing,
            );
            proof {
                assert(one@ =~= seq![cur->0]);
            }
            lines = first;
            if saved.len() > 0 {
                push_separator(ui, &mut lines, separator, allow_plain_spacing);
            } else {
                assert(texts(lines@) =~= texts(lines@) + Seq::<Seq<char>>::empty());
            }
        },
        None => {
            assert(texts(lines@) =~= Seq::<Seq<char>>::empty());
        },
    }
    let ghost head = texts(lines@);
    let rest = render_entries(
        ui,
        saved,
        show_last_used,
        show_usage,
        use_color,
        separator,
        allow_plain_spacing,
    );
    let mut i: usize = 0;
    while i < rest.len()
        invariant
            i <= rest.len(),
            texts(lines@) == head + texts(rest@).take(i as int),
        decreases rest.len() - i,
    {
        let ghost prev = texts(lines@);
        lines.push(rest[i].clone());
        proof {
            assert(texts(lines@) =~= prev.push(rest@[i as int]@));
            assert(texts(rest@).take(i + 1) =~= texts(rest@).take(i as int).push(rest@[i as int]@));
        }
        i = i + 1;
    }
    proof {
        assert(texts(rest@).take(rest.len() as int) =~= texts(rest@));
        assert(crate::priority_table::strs(lines@) =~= texts(lines@));
    }
    crate::priority_table::join_newline(&lines)
}

/// The entry of a saved profile, from its identity and details: the
/// refresh failure noted, details always shown for a free plan.
pub fn saved_entry(
    ui: &Ui,
    info: ProfileInfo,
    last_used: String,
    details: Vec<String>,
    summary: Option<String>,
    attempt: &RefreshAttempt,
    is_current: bool,
    use_color: bool,
) -> (res: Entry)
    ensures
        res.display == info.display,
        res.last_used == last_used,
        res.always_show_details == info.is_free,
        res.is_current == is_current,
        match attempt {
            RefreshAttempt::Failed(err) => {
                &&& res.details.len() == details.len() + 1
                &&& texts(res.details@).drop_first() == texts(details@)
                &&& warning_line(res.details@[0]@, *ui, use_color, normalized_error(err@))
                &&& opt_seq(res.error_summary) == match summary {
                    Some(s) => Some(s@),
                    None => Some(error_summary_text("Auth refresh"@, err@)),
                }
            },
            _ => res.details == details && res.error_summary == summary,
        },
{
    let (details, summary) = note_refresh_failure(ui, details, summary, attempt, use_color);
    Entry {
        display: info.display,
        last_used,
        details,
        error_summary: summary,
        always_show_details: info.is_free,
        is_current,
    }
}

/// The entry of the current login: the refresh failure noted; where the
/// login is not saved but could be, and not on the free plan, the warning
/// that it is not saved; details always shown where it is unsaved, or on
/// the free plan when usage is not shown.
pub fn current_entry(
    ui: &Ui,
    info: ProfileInfo,
    details: Vec<String>,
    summary: Option<String>,
    attempt: &RefreshAttempt,
    is_unsaved: bool,
    show_usage: bool,
    use_color: bool,
) -> (res: Entry)
    ensures
        res.display == info.display,
        res.last_used@.len() == 0,
        res.is_current,
        res.always_show_details == (is_unsaved || (info.is_free && !show_usage)),
        ({
            let noted = match attempt {
                RefreshAttempt::Failed(err) => res.details.len() >= 1 && warning_line(
                    res.details@[0]@,
                    *ui,
                    use_color,
                    normalized_error(err@),
                ),
                _ => true,
            };
            let extra: int = if is_unsaved && !info.is_free {
                2
            } else {
                0
            };
            let base: int = match attempt {
                RefreshAttempt::Failed(_) => details.len() + 1,
                _ => details.len() as int,
            };
            &&& noted
            &&& res.details.len() == base + extra
            &&& texts(res.details@).subrange(base - details.len(), base) == texts(details@)
            &&& (is_unsaved && !info.is_free && (!use_color || ui.plain)) ==> {
                &&& res.details@[base]@ == "WARNING: This profile is not saved yet."@
                &&& res.details@[base + 1]@ == "Run "@ + crate::ui::cmd_text(
                    crate::ui::command_line(ui.command_name@, "save"@),
                ) + " to save this profile."@
            }
            &&& (is_unsaved && !info.is_free && use_color && !ui.plain) ==> {
                &&& crate::ui::painted(res.details@[base]@, "WARNING: This profile is not saved yet."@)
                &&& crate::ui::painted(
                    res.details@[base + 1]@,
                    "Run "@ + crate::ui::cmd_text(crate::ui::command_line(ui.command_name@, "save"@))
                        + " to save this profile."@,
                )
            }
        }),
        match attempt {
            RefreshAttempt::Failed(err) => opt_seq(res.error_summary) == match summary {
                Some(s) => Some(s@),
                None => Some(error_summary_text("Auth refresh"@, err@)),
            },
            _ => res.error_summary == summary,
        },
{
    let ghost d0 = texts(details@);
    let (details, summary) = note_refresh_failure(ui, details, summary, attempt, use_color);
    let ghost base: int = details.len() as int;
    let mut details = details;
    proof {
        match attempt {
            RefreshAttempt::Failed(_) => {
                assert(texts(details@).subrange(1, base) =~= texts(details@).drop_first());
            },
            _ => {
                assert(texts(details@).subrange(0, base) =~= texts(details@));
            },
        }
    }
    let ghost before = texts(details@);
    if is_unsaved && !info.is_free {
        let warning = ui.format_unsaved_warning(use_color);
        details.push(warning[0].clone());
        details.push(warning[1].clone());
        proof {
            assert(texts(details@).subrange(0, base) =~= before);
        }
    }
    proof {
        assert(texts(details@).subrange(base - d0.len(), base) =~= before.subrange(
            base - d0.len(),
            base,
        ));
    }
    Entry {
        display: info.display,
        last_used: String::new(),
        details,
        error_summary: summary,
        always_show_details: is_unsaved || (info.is_free && !show_usage),
        is_current: true,
    }
}

// ---------------------------------------------------------------------------
// Choosing profiles
// ---------------------------------------------------------------------------

/// A saved profile offered in a selection list.
#[derive(Clone, Debug, PartialEq, Eq)]
pub struct Candidate {
    pub id: String,
    pub display: String,
    pub last_used: String,
    pub is_current: bool,
}

/// A candidate from a saved profile: the current one shows no last-used
/// time.
pub fn make_candidate(id: &str, info: ProfileInfo, last_used_text: String, is_current: bool) -> (res:
    Candidate)
    ensures
        res.id@ == id@,
        res.display == info.display,
        res.last_used@ == if is_current {
            Seq::empty()
        } else {
            last_used_text@
        },
        res.is_current == is_current,
{
    Candidate {
        id: owned(id),
        display: info.display,
        last_used: if is_current {
            String::new()
        } else {
            last_used_text
        },
        is_current,
    }
}

/// An error that ends in the hint to list the saved profiles: the hint
/// without colour where colour is off or plain mode is on, else the styled
/// hint.
pub open spec fn label_error_with_hint(
    e: Seq<char>,
    ui: Ui,
    use_color: bool,
    message: spec_fn(Seq<char>) -> Seq<char>,
) -> bool {
    &&& (!use_color || ui.plain) ==> e == message(crate::profile_store::list_hint_text(ui))
    &&& (use_color && !ui.plain) ==> exists|h: Seq<char>|
        #![trigger crate::ui::list_hint_colored(h, ui.command_name@)]
        crate::ui::list_hint_colored(h, ui.command_name@) && e == message(h)
}

/// The candidate that a label names; an error where the label names no
/// profile or none of the candidates.
pub fn select_by_label(
    ui: &Ui,
    label: &str,
    labels: &crate::profile_store::Labels,
    candidates: &[Candidate],
    use_color: bool,
) -> (res: Result<usize, String>)
    ensures
        ({
            let t = crate::text::trim_seq(label@);
            let m = crate::profile_store::label_texts(labels@);
            if t.len() == 0 {
                res matches Err(e) && e@ == crate::profile_store::empty_label_error()
            } else if !m.dom().contains(t) {
                res matches Err(e) && label_error_with_hint(
                    e@,
                    *ui,
                    use_color,
                    |h: Seq<char>| crate::profile_store::label_missing_error(t, h),
                )
            } else {
                match res {
                    Ok(i) => i < candidates.len() && candidates@[i as int].id@ == m[t] && forall|
                        j: int,
                    |
                        0 <= j < i ==> (#[trigger] candidates@[j]).id@ != m[t],
                    Err(e) => (forall|j: int|
                        0 <= j < candidates.len() ==> (#[trigger] candidates@[j]).id@ != m[t])
                        && label_error_with_hint(
                        e@,
                        *ui,
                        use_color,
                        |h: Seq<char>| "Error: label '"@ + label@ + "' does not match a saved profile. "@ + h,
                    ),
                }
            }
        }),
{
    let id = match crate::profile_store::resolve_label_id(labels, label, ui, use_color) {
        Ok(id) => id,
        Err(e) => return Err(e),
    };
    proof {
        let t = crate::text::trim_seq(label@);
        let m = crate::profile_store::label_texts(labels@);
        assert(t.len() > 0 && m.dom().contains(t) && id@ == m[t]);
    }
    let mut i: usize = 0;
    while i < candidates.len()
        invariant
            i <= candidates.len(),
            crate::text::trim_seq(label@).len() > 0,
            crate::profile_store::label_texts(labels@).dom().contains(crate::text::trim_seq(label@)),
            id@ == crate::profile_store::label_texts(labels@)[crate::text::trim_seq(label@)],
            forall|j: int| 0 <= j < i ==> (#[trigger] candidates@[j]).id@ != id@,
        decreases candidates.len() - i,
    {
        if crate::text::str_eq(candidates[i].id.as_str(), id.as_str()) {
            proof {
                let t = crate::text::trim_seq(label@);
                let m = crate::profile_store::label_texts(labels@);
                assert(candidates@[i as int].id@ == m[t]);
                assert forall|j: int| 0 <= j < i implies (#[trigger] candidates@[j]).id@ != m[t] by {}
            }
            return Ok(i);
        }
        i = i + 1;
    }
    let hint = ui.format_list_hint(use_color);
    let mut msg = concat3("Error: label '", label, "' does not match a saved profile. ");
    push_str(&mut msg, hint.as_str());
    proof {
        if use_color && !ui.plain {
            assert(crate::ui::list_hint_colored(hint@, ui.command_name@));
        }
    }
    Err(msg)
}

/// The answer of an interactive prompt.
#[derive(Debug, Clone, PartialEq, Eq)]
pub enum PromptResult<T> {
    Answer(T),
    /// The user cancelled (Esc or Ctrl-C).
    Cancelled,
    /// The prompt failed, with the error's text.
    Failed(String),
}

/// The message for a cancelled prompt.
pub open spec fn cancelled_message() -> Seq<char> {
    "Cancelled."@
}

/// The answer of a prompt, a cancellation as the cancelled message, or the
/// prompt's error.
pub fn handle_inquire_result<T>(result: PromptResult<T>, context: &str) -> (res: Result<T, String>)
    ensures
        match result {
            PromptResult::Answer(v) => res == Ok::<T, String>(v),
            PromptResult::Cancelled => res matches Err(e) && e@ == cancelled_message(),
            PromptResult::Failed(err) => res matches Err(e) && e@ == "Error: failed to prompt for "@
                + context@ + ": "@ + err@,
        },
{
    match result {
        PromptResult::Answer(v) => Ok(v),
        PromptResult::Cancelled => Err(owned("Cancelled.")),
        PromptResult::Failed(err) => {
            let mut m = concat3("Error: failed to prompt for ", context, ": ");
            push_str(&mut m, err.as_str());
            Err(m)
        },
    }
}

/// The message where a deletion cannot be confirmed without a terminal.
pub open spec fn delete_needs_confirmation() -> Seq<char> {
    "Error: deletion requires confirmation. Re-run with `--yes` to skip the prompt."@
}

/// The answer to the delete confirmation: refused without a terminal; the
/// answer; a cancellation; or the prompt's error.
pub fn confirm_delete_profiles_with(is_tty: bool, selection: PromptResult<bool>) -> (res: Result<
    bool,
    String,
>)
    ensures
        !is_tty ==> (res matches Err(e) && e@ == delete_needs_confirmation()),
        is_tty ==> match selection {
            PromptResult::Answer(v) => res == Ok::<bool, String>(v),
            PromptResult::Cancelled => res matches Err(e) && e@ == cancelled_message(),
            PromptResult::Failed(err) => res matches Err(e) && e@ == "Error: failed to prompt for "@
                + "delete"@ + ": "@ + err@,
        },
{
    if !is_tty {
        return Err(
            owned("Error: deletion requires confirmation. Re-run with `--yes` to skip the prompt."),
        );
    }
    proof {
        reveal_strlit("delete");
    }
    handle_inquire_result(selection, "delete")
}

/// The question asked before deleting profiles: about the one profile, or
/// about the selected ones (which are listed before it).
pub fn delete_prompt(displays: &[String]) -> (res: String)
    ensures
        displays.len() == 1 ==> res@ == "Delete profile "@ + displays@[0]@
            + "? This cannot be undone."@,
        displays.len() != 1 ==> res@ == "Delete selected profiles? This cannot be undone."@,
{
    if displays.len() == 1 {
        concat3("Delete profile ", displays[0].as_str(), "? This cannot be undone.")
    } else {
        owned("Delete selected profiles? This cannot be undone.")
    }
}

/// What to do about an unsaved current login before a load.
#[derive(Debug, Clone, Copy, PartialEq, Eq, Structural)]
pub enum LoadChoice {
    SaveAndContinue,
    ContinueWithoutSaving,
    Cancel,
}

/// The choices offered for an unsaved current login.
pub open spec fn load_choice_texts() -> Seq<Seq<char>> {
    seq!["Save current profile and continue"@, "Continue without saving"@, "Cancel"@]
}

/// The choice made about an unsaved current login: refused without a
/// terminal (with the hint to save first); else the chosen option, with a
/// cancellation as `Cancel`.
pub fn prompt_unsaved_load_with(is_tty: bool, save_hint: &str, selection: PromptResult<String>) -> (res:
    Result<LoadChoice, String>)
    ensures
        !is_tty ==> (res matches Err(e) && e@ == "Error: current profile is not saved. "@
            + save_hint@),
        is_tty ==> match selection {
            PromptResult::Answer(s) => if s@ == load_choice_texts()[0] {
                res == Ok::<LoadChoice, String>(LoadChoice::SaveAndContinue)
            } else if s@ == load_choice_texts()[1] {
                res == Ok::<LoadChoice, String>(LoadChoice::ContinueWithoutSaving)
            } else {
                res == Ok::<LoadChoice, String>(LoadChoice::Cancel)
            },
            PromptResult::Cancelled => res == Ok::<LoadChoice, String>(LoadChoice::Cancel),
            PromptResult::Failed(err) => res matches Err(e) && e@
                == "Error: failed to prompt for load: "@ + err@,
        },
{
    if !is_tty {
        return Err(concat("Error: current profile is not saved. ", save_hint));
    }
    proof {
        reveal_strlit("Save current profile and continue");
        reveal_strlit("Continue without saving");
    }
    match selection {
        PromptResult::Answer(s) => {
            if crate::text::str_eq(s.as_str(), "Save current profile and continue") {
                Ok(LoadChoice::SaveAndContinue)
            } else if crate::text::str_eq(s.as_str(), "Continue without saving") {
                Ok(LoadChoice::ContinueWithoutSaving)
            } else {
                Ok(LoadChoice::Cancel)
            }
        },
        PromptResult::Cancelled => Ok(LoadChoice::Cancel),
        PromptResult::Failed(err) => Err(concat("Error: failed to prompt for load: ", err.as_str())),
    }
}

/// Which saved profile the current login is: the primary saved profile of
/// its account where that was looked up and found, else the one it was
/// already known as. The lookup is made after a successful token refresh,
/// or where no saved profile was known.
pub open spec fn effective_saved(
    refresh_succeeded: bool,
    current_saved: Option<Seq<char>>,
    primary: Option<Seq<char>>,
) -> Option<Seq<char>> {
    if (refresh_succeeded || current_saved is None) && primary is Some {
        primary
    } else {
        current_saved
    }
}

/// Whether the primary saved profile of the current login is looked up.
pub fn looks_up_primary(refresh_succeeded: bool, current_saved: Option<&str>) -> (res: bool)
    ensures
        res == (refresh_succeeded || current_saved is None),
{
    refresh_succeeded || current_saved.is_none()
}

/// The saved profile that the current login is, given the primary saved
/// profile found for its account (`None` where none was looked up or found).
pub fn effective_saved_id(
    refresh_succeeded: bool,
    current_saved: Option<&str>,
    primary: Option<String>,
) -> (res: Option<String>)
    ensures
        opt_seq(res) == effective_saved(
            refresh_succeeded,
            match current_saved {
                Some(c) => Some(c@),
                None => None,
            },
            opt_seq(primary),
        ),
{
    if (refresh_succeeded || current_saved.is_none()) && primary.is_some() {
        primary
    } else {
        match current_saved {
            Some(c) => Some(owned(c)),
            None => None,
        }
    }
}

/// What the entry of the current login does with its saved profile: which
/// saved profile it is, which saved file receives the refreshed login, and
/// whether the login is shown as not saved.
#[derive(Debug, Clone)]
pub struct CurrentSaved {
    pub saved_id: Option<String>,
    pub copy_to: Option<String>,
    pub unsaved: bool,
}

/// The saved profile of the current login: the effective saved id; after a
/// successful refresh, that profile's file receives the refreshed login;
/// the login is unsaved where no saved profile is found and it is ready to
/// be saved.
pub fn current_saved_step(
    refresh_succeeded: bool,
    current_saved: Option<&str>,
    primary: Option<String>,
    profile_ready: bool,
) -> (res: CurrentSaved)
    ensures
        opt_seq(res.saved_id) == effective_saved(
            refresh_succeeded,
            match current_saved {
                Some(c) => Some(c@),
                None => None,
            },
            opt_seq(primary),
        ),
        opt_seq(res.copy_to) == (if refresh_succeeded {
            opt_seq(res.saved_id)
        } else {
            None
        }),
        res.unsaved == (res.saved_id is None && profile_ready),
{
    let saved_id = effective_saved_id(refresh_succeeded, current_saved, primary);
    let copy_to = if refresh_succeeded {
        saved_id.clone()
    } else {
        None
    };
    let unsaved = saved_id.is_none() && profile_ready;
    CurrentSaved { saved_id, copy_to, unsaved }
}

} // verus!
