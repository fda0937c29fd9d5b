//! Relaying a login callback URL to the local login listener of another
//! terminal: which URLs are accepted, and what the listener's answer means.
use vstd::prelude::*;

use crate::auth::opt_seq;
use crate::text::{chars_of, concat, concat3, contains_char, owned, push_str, split_once_seq, string_of, trim_seq};

verus! {

/// What `http::Uri` parses from a text: its scheme, host, port, path and
/// query, or the message of the parse error.
pub uninterp spec fn parse_uri(text: Seq<char>) -> Result<
    (Option<Seq<char>>, Option<Seq<char>>, Option<u16>, Seq<char>, Option<Seq<char>>),
    Seq<char>,
>;

/// The parts of a parsed URI, as the URL checks read them.
pub struct UriParts {
    pub scheme: Option<String>,
    pub host: Option<String>,
    pub port: Option<u16>,
    pub path: String,
    pub query: Option<String>,
}

/// Parses a URI with `http::Uri`'s `FromStr` (re-exported by `ureq`) and reads
/// its parts with `scheme_str`, `host`, `port_u16`, `path` and `query`.
/// Trusted: the parts, or the text of the parse error, are the name
/// `parse_uri` of the text.
#[verifier::external_body]
fn parse_callback_uri(text: &str) -> (res: Result<UriParts, String>)
    ensures
        match res {
            Ok(p) => parse_uri(text@) == Ok::<_, Seq<char>>(
                (opt_seq(p.scheme), opt_seq(p.host), p.port, p.path@, opt_seq(p.query)),
            ),
            Err(e) => parse_uri(text@) == Err::<
                (Option<Seq<char>>, Option<Seq<char>>, Option<u16>, Seq<char>, Option<Seq<char>>),
                Seq<char>,
            >(e@),
        },
{
    match text.parse::<ureq::http::Uri>() {
        Ok(uri) => Ok(UriParts {
            scheme: uri.scheme_str().map(str::to_string),
            host: uri.host().map(str::to_string),
            port: uri.port_u16(),
            path: uri.path().to_string(),
            query: uri.query().map(str::to_string),
        }),
        Err(err) => Err(err.to_string()),
    }
}

/// A pasted or given callback URL without surrounding whitespace; empty is
/// an error.
pub open spec fn normalized_callback(value: Seq<char>) -> Result<Seq<char>, Seq<char>> {
    if trim_seq(value).len() == 0 {
        Err("Error: callback URL is empty."@)
    } else {
        Ok(trim_seq(value))
    }
}

/// A callback URL without surrounding whitespace.
pub fn normalize_callback_url(value: String) -> (res: Result<String, String>)
    ensures
        match normalized_callback(value@) {
            Ok(v) => res matches Ok(s) && s@ == v,
            Err(m) => res matches Err(e) && e@ == m,
        },
{
    let t = crate::text::trim_str(value.as_str());
    if t.as_str().is_empty() {
        return Err(owned("Error: callback URL is empty."));
    }
    Ok(t)
}

/// The callback URL to relay: the one given, else (on a terminal) the one
/// read from input; without a terminal it must be given.
pub fn resolve_callback_url_with<F>(url_arg: Option<String>, stdin_is_tty: bool, read_input: F) -> (res:
    Result<String, String>) where F: FnOnce() -> Result<String, String>
    requires
        url_arg is None && stdin_is_tty ==> read_input.requires(()),
    ensures
        url_arg matches Some(u) ==> match normalized_callback(u@) {
            Ok(v) => res matches Ok(s) && s@ == v,
            Err(m) => res matches Err(e) && e@ == m,
        },
        url_arg is None && !stdin_is_tty ==> (res matches Err(e) && e@
            == "Error: --url is required in non-interactive mode."@),
        url_arg is None && stdin_is_tty ==> exists|r: Result<String, String>|
            read_input.ensures((), r) && match r {
                Err(e) => res == Err::<String, String>(e),
                Ok(input) => match normalized_callback(input@) {
                    Ok(v) => res matches Ok(s) && s@ == v,
                    Err(m) => res matches Err(e) && e@ == m,
                },
            },
{
    if let Some(url) = url_arg {
        return normalize_callback_url(url);
    }
    if !stdin_is_tty {
        return Err(owned("Error: --url is required in non-interactive mode."));
    }
    let r = read_input();
    let ghost rr = r;
    match r {
        Err(e) => Err(e),
        Ok(input) => normalize_callback_url(input),
    }
}

/// The pieces of a text between a separator (`str::split`): at least one.
pub open spec fn split_pieces(s: Seq<char>, c: char) -> Seq<Seq<char>> {
    closed_pieces(s, c).push(open_piece(s, c))
}

/// The piece after the last separator.
pub open spec fn open_piece(s: Seq<char>, c: char) -> Seq<char>
    decreases s.len(),
{
    if s.len() == 0 {
        Seq::empty()
    } else if s.last() == c {
        Seq::empty()
    } else {
        open_piece(s.drop_last(), c).push(s.last())
    }
}

/// The pieces that a separator has closed.
pub open spec fn closed_pieces(s: Seq<char>, c: char) -> Seq<Seq<char>>
    decreases s.len(),
{
    if s.len() == 0 {
        Seq::empty()
    } else if s.last() == c {
        closed_pieces(s.drop_last(), c).push(open_piece(s.drop_last(), c))
    } else {
        closed_pieces(s.drop_last(), c)
    }
}

/// Whether a query part sets `key` to a non-empty value.
pub open spec fn param_set(part: Seq<char>, key: Seq<char>) -> bool {
    let (name, value) = match split_once_seq(part, '=') {
        Some((n, v)) => (n, v),
        None => (part, Seq::empty()),
    };
    name == key && value.len() > 0
}

/// Whether a query sets `key` to a non-empty value.
pub open spec fn query_has_param(query: Seq<char>, key: Seq<char>) -> bool {
    exists|i: int|
        0 <= i < split_pieces(query, '&').len() && #[trigger] param_set(
            split_pieces(query, '&')[i],
            key,
        )
}

fn param_set_exec(part: &[char], key: &str) -> (res: bool)
    ensures
        res == param_set(part@, key@),
{
    let (name, value) = match crate::text::split_once_chars(part, '=') {
        Some((n, v)) => (n, v),
        None => (crate::text::slice_range(part, 0, part.len()), Vec::new()),
    };
    assert(crate::text::split_once_seq(part@, '=') is None ==> name@ =~= part@);
    crate::text::chars_eq(&name, &chars_of(key)) && value.len() > 0
}

/// Whether the query of a URL sets `key` to a non-empty value.
pub fn has_non_empty_query_param(query: &str, key: &str) -> (res: bool)
    ensures
        res == query_has_param(query@, key@),
{
    let q = chars_of(query);
    let mut piece: Vec<char> = Vec::new();
    let mut found = false;
    let mut i: usize = 0;
    while i < q.len()
        invariant
            i <= q.len(),
            q@ == query@,
            piece@ == open_piece(q@.take(i as int), '&'),
            found == exists|k: int|
                0 <= k < closed_pieces(q@.take(i as int), '&').len() && #[trigger] param_set(
                    closed_pieces(q@.take(i as int), '&')[k],
                    key@,
                ),
        decreases q.len() - i,
    {
        let ghost pre = q@.take(i as int);
        let ghost post = q@.take(i + 1);
        assert(post.drop_last() =~= pre);
        if q[i] == '&' {
            let p = param_set_exec(&piece, key);
            proof {
                let cp = closed_pieces(post, '&');
                assert(cp == closed_pieces(pre, '&').push(piece@));
                assert(found || p <==> exists|k: int| 0 <= k < cp.len() && #[trigger] param_set(cp[k], key@)) by {
                    if exists|k: int| 0 <= k < cp.len() && #[trigger] param_set(cp[k], key@) {
                        let k = choose|k: int| 0 <= k < cp.len() && #[trigger] param_set(cp[k], key@);
                        if k < cp.len() - 1 {
                            assert(closed_pieces(pre, '&')[k] == cp[k]);
                        }
                    }
                    if found {
                        let k = choose|k: int| 0 <= k < closed_pieces(pre, '&').len() && #[trigger] param_set(closed_pieces(pre, '&')[k], key@);
                        assert(cp[k] == closed_pieces(pre, '&')[k]);
                    }
                    if p {
                        assert(cp[cp.len() - 1] == piece@);
                    }
                }
            }
            found = found || p;
            piece = Vec::new();
        } else {
            piece.push(q[i]);
        }
        i = i + 1;
    }
    assert(q@.take(q.len() as int) =~= query@);
    let last = param_set_exec(&piece, key);
    proof {
        let sp = split_pieces(query@, '&');
        let cp = closed_pieces(query@, '&');
        assert(found || last <==> query_has_param(query@, key@)) by {
            if query_has_param(query@, key@) {
                let k = choose|k: int| 0 <= k < sp.len() && #[trigger] param_set(sp[k], key@);
                if k < cp.len() {
                    assert(sp[k] == cp[k]);
                }
            }
            if found {
                let k = choose|k: int| 0 <= k < cp.len() && #[trigger] param_set(cp[k], key@);
                assert(sp[k] == cp[k]);
            }
            if last {
                assert(sp[cp.len() as int] == piece@);
            }
        }
    }
    found || last
}

/// Why a callback URL is refused, in the order the checks run; `None` for an
/// accepted URL.
pub open spec fn callback_url_error(url: Seq<char>) -> Option<Seq<char>> {
    if url.contains('#') {
        Some("Error: callback URL must not include a fragment."@)
    } else {
        match parse_uri(url) {
            Err(e) => Some("Error: callback URL is invalid: "@ + e),
            Ok((scheme, host, port, path, query)) => if !(scheme matches Some(s)
                && crate::text::eq_ignore_case(s, "http"@)) {
                Some("Error: callback URL must use http."@)
            } else if !({
                let h = match host {
                    Some(h) => h,
                    None => Seq::empty(),
                };
                crate::text::eq_ignore_case(h, "localhost"@) || h == "127.0.0.1"@
            }) {
                Some("Error: callback URL host must be localhost or 127.0.0.1."@)
            } else if port is None {
                Some("Error: callback URL must include an explicit port."@)
            } else if path != "/auth/callback"@ {
                Some("Error: callback URL path must be /auth/callback."@)
            } else {
                let q = match query {
                    Some(q) => q,
                    None => Seq::empty(),
                };
                if !query_has_param(q, "code"@) {
                    Some("Error: callback URL must include a non-empty code query param."@)
                } else if !query_has_param(q, "state"@) {
                    Some("Error: callback URL must include a non-empty state query param."@)
                } else {
                    None
                }
            },
        }
    }
}

/// Checks that a callback URL targets the local login listener: plain http
/// to localhost or 127.0.0.1 with an explicit port, the path
/// `/auth/callback`, non-empty `code` and `state` parameters, and no
/// fragment.
pub fn validate_callback_url(callback_url: &str) -> (res: Result<(), String>)
    ensures
        match callback_url_error(callback_url@) {
            None => res is Ok,
            Some(m) => res matches Err(e) && e@ == m,
        },
{
    if contains_char(&chars_of(callback_url), '#') {
        return Err(owned("Error: callback URL must not include a fragment."));
    }
    let uri = match parse_callback_uri(callback_url) {
        Ok(u) => u,
        Err(e) => return Err(concat("Error: callback URL is invalid: ", e.as_str())),
    };
    let http = match &uri.scheme {
        Some(s) => crate::text::str_eq_ignore_case(s.as_str(), "http"),
        None => false,
    };
    if !http {
        return Err(owned("Error: callback URL must use http."));
    }
    let host = match &uri.host {
        Some(h) => h.clone(),
        None => String::new(),
    };
    if !(crate::text::str_eq_ignore_case(host.as_str(), "localhost") || crate::text::str_eq(
        host.as_str(),
        "127.0.0.1",
    )) {
        return Err(owned("Error: callback URL host must be localhost or 127.0.0.1."));
    }
    if uri.port.is_none() {
        return Err(owned("Error: callback URL must include an explicit port."));
    }
    if !crate::text::str_eq(uri.path.as_str(), "/auth/callback") {
        return Err(owned("Error: callback URL path must be /auth/callback."));
    }
    let query = match &uri.query {
        Some(q) => q.clone(),
        None => String::new(),
    };
    if !has_non_empty_query_param(query.as_str(), "code") {
        return Err(owned("Error: callback URL must include a non-empty code query param."));
    }
    if !has_non_empty_query_param(query.as_str(), "state") {
        return Err(owned("Error: callback URL must include a non-empty state query param."));
    }
    Ok(())
}

/// What the listener's HTTP status means: success for 2xx and 3xx, else the
/// message for client errors, server errors, or other codes.
pub fn map_listener_status(status: u16) -> (res: Result<(), String>)
    ensures
        200 <= status <= 399 ==> res is Ok,
        400 <= status <= 499 ==> (res matches Err(m) && m@
            == "Error: local login listener returned http status: "@ + crate::num::dec_seq(
            status as nat,
        ) + ". Verify the listener is running and retry with a fresh callback URL."@),
        500 <= status <= 599 ==> (res matches Err(m) && m@
            == "Error: local login listener returned http status: "@ + crate::num::dec_seq(
            status as nat,
        ) + ". The listener failed to process the callback; restart it and retry."@),
        (status < 200 || status > 599) ==> (res matches Err(m) && m@
            == "Error: local login listener returned unexpected http status: "@ + crate::num::dec_seq(
            status as nat,
        ) + "."@),
{
    let code = crate::num::u64_to_string(status as u64);
    if 200 <= status && status <= 399 {
        return Ok(());
    }
    if 400 <= status && status <= 499 {
        return Err(
            concat3(
                "Error: local login listener returned http status: ",
                code.as_str(),
                ". Verify the listener is running and retry with a fresh callback URL.",
            ),
        );
    }
    if 500 <= status && status <= 599 {
        return Err(
            concat3(
                "Error: local login listener returned http status: ",
                code.as_str(),
                ". The listener failed to process the callback; restart it and retry.",
            ),
        );
    }
    Err(concat3("Error: local login listener returned unexpected http status: ", code.as_str(), "."))
}

/// The message where the listener could not be reached, given the transport
/// error's text.
pub fn map_transport_error(err: &str) -> (res: String)
    ensures
        res@ == "Error: failed to reach local login listener: "@ + err@
            + ". Ensure the listener is running, then retry `relay-login --url <callback_url>`."@,
{
    concat3(
        "Error: failed to reach local login listener: ",
        err,
        ". Ensure the listener is running, then retry `relay-login --url <callback_url>`.",
    )
}

/// What relaying a valid callback URL gives: success where the listener
/// answered with a 2xx or 3xx status, else the message for its status or
/// for the transport error.
pub open spec fn relay_result(reply: Result<u16, String>) -> Result<(), Seq<char>> {
    match reply {
        Ok(status) => if 200 <= status <= 399 {
            Ok(())
        } else if 400 <= status <= 499 {
            Err(
                "Error: local login listener returned http status: "@ + crate::num::dec_seq(
                    status as nat,
                ) + ". Verify the listener is running and retry with a fresh callback URL."@,
            )
        } else if 500 <= status <= 599 {
            Err(
                "Error: local login listener returned http status: "@ + crate::num::dec_seq(
                    status as nat,
                ) + ". The listener failed to process the callback; restart it and retry."@,
            )
        } else {
            Err(
                "Error: local login listener returned unexpected http status: "@
                    + crate::num::dec_seq(status as nat) + "."@,
            )
        },
        Err(t) => Err(
            "Error: failed to reach local login listener: "@ + t@
                + ". Ensure the listener is running, then retry `relay-login --url <callback_url>`."@,
        ),
    }
}

/// The message after a successful relay.
pub open spec fn relayed_message() -> Seq<char> {
    "Relayed callback to local login listener. Complete login in Roo/Codex terminal."@
}

/// Whether a relay login ended as it should for a resolved callback URL
/// `v`: refused where the URL is invalid, else sent to the listener, whose
/// reply decides.
pub open spec fn relay_login_outcome<G: FnOnce(&str) -> Result<u16, String>>(
    v: Seq<char>,
    relay: G,
    res: Result<(), Seq<char>>,
) -> bool {
    match callback_url_error(v) {
        Some(m) => res == Err::<(), Seq<char>>(m),
        None => exists|s: &str, reply: Result<u16, String>|
            s@ == v && relay.ensures((s,), reply) && res == relay_result(reply),
    }
}

/// The outcome of a relay login without the message's styling.
pub open spec fn unit_result(res: Result<String, String>) -> Result<(), Seq<char>> {
    match res {
        Ok(_) => Ok(()),
        Err(e) => Err(e@),
    }
}

/// Relays a login callback URL to the local login listener: the URL is
/// taken as `resolve_callback_url_with` takes it, checked as
/// `validate_callback_url` checks it, and handed to `relay`, which sends it
/// and gives back the listener's HTTP status or the transport error's text.
/// On success, the message to show.
pub fn relay_login<F, G>(
    url_arg: Option<String>,
    stdin_is_tty: bool,
    read_input: F,
    relay: G,
    ui: &crate::ui::Ui,
    use_color: bool,
) -> (res: Result<String, String>) where
    F: FnOnce() -> Result<String, String>,
    G: FnOnce(&str) -> Result<u16, String>,

    requires
        url_arg is None && stdin_is_tty ==> read_input.requires(()),
        forall|s: &str| relay.requires((s,)),
    ensures
        url_arg matches Some(u) ==> match normalized_callback(u@) {
            Ok(v) => relay_login_outcome(v, relay, unit_result(res)),
            Err(m) => res matches Err(e) && e@ == m,
        },
        url_arg is None && !stdin_is_tty ==> (res matches Err(e) && e@
            == "Error: --url is required in non-interactive mode."@),
        url_arg is None && stdin_is_tty ==> exists|r: Result<String, String>|
            read_input.ensures((), r) && match r {
                Err(e) => res == Err::<String, String>(e),
                Ok(input) => match normalized_callback(input@) {
                    Ok(v) => relay_login_outcome(v, relay, unit_result(res)),
                    Err(m) => res matches Err(e) && e@ == m,
                },
            },
        res matches Ok(m) ==> (!use_color || ui.plain ==> m@ == "✅ "@ + relayed_message()),
        res matches Ok(m) ==> (use_color && !ui.plain ==> crate::ui::styled_as(
            m@,
            "✅ "@ + relayed_message(),
            crate::ui::paint_prefix(crate::ui::Paint::GreenBold),
        )),
{
    let url = resolve_callback_url_with(url_arg, stdin_is_tty, read_input)?;
    validate_callback_url(url.as_str())?;
    let reply = relay(url.as_str());
    let ghost rr = reply;
    match reply {
        Ok(status) => {
            map_listener_status(status)?;
        },
        Err(t) => {
            return Err(map_transport_error(t.as_str()));
        },
    }
    proof {
        reveal_strlit("Relayed callback to local login listener. Complete login in Roo/Codex terminal.");
    }
    Ok(
        ui.format_action(
            "Relayed callback to local login listener. Complete login in Roo/Codex terminal.",
            use_color,
        ),
    )
}

} // verus!
