//! Reloading the IDEs that hold a Codex login after a switch: the standalone
//! Codex app for Windows is restarted, and Cursor's Codex extension is asked
//! to reload its window.
//!
//! Processes are listed and commands run by the caller; this module decides
//! what is detected, what is done, and what the user is told.
use vstd::prelude::*;

use crate::num::{dec_seq, hex_byte_upper, hex_byte_upper_chars, u64_to_string};
use crate::text::{
    chars_of, concat, concat3, contains, contains_seq, ends_with, is_prefix, is_suffix, lower_seq,
    owned, push_chars, push_str, replace_seq, split_once_seq, str_eq, string_of, trim_seq,
};

verus! {

/// What a reload did or would do, and what the user should do by hand.
#[derive(Debug, Clone)]
pub struct IdeReloadOutcome {
    pub attempted: bool,
    pub restarted: bool,
    pub message: String,
    pub manual_hints: Vec<String>,
}

/// A Codex app location given by configuration or the environment.
#[derive(Debug, Clone)]
pub struct CodexAppOverride {
    pub executable_path: Option<String>,
    pub app_user_model_id: Option<String>,
}

/// Where the Codex app was found.
#[derive(Debug, Clone)]
pub struct CodexAppDiscovery {
    pub executable_path: String,
    pub app_user_model_id: Option<String>,
    pub source: String,
}

/// Which apps a reload covers.
#[derive(Debug, Clone, Copy, PartialEq, Eq, Structural)]
pub enum ReloadAppTarget {
    All,
    Codex,
    Cursor,
}

/// A running process as the Windows process query lists it.
#[derive(Debug, Clone)]
pub struct WindowsProcessInfo {
    pub name: String,
    pub process_id: u32,
    pub executable_path: Option<String>,
}

/// An installed Codex app package as `Get-AppxPackage` lists it.
#[derive(Debug, Clone)]
pub struct AppxPackageInfo {
    pub package_family_name: Option<String>,
    pub install_location: Option<String>,
}

/// How the Codex app is started again.
#[derive(Debug, Clone)]
pub struct CodexAppLaunchTarget {
    pub executable_path: String,
    pub app_user_model_id: Option<String>,
    pub source: String,
}

impl ReloadAppTarget {
    /// Whether the target covers the Codex app.
    pub fn includes_codex(self) -> (res: bool)
        ensures
            res == (self == ReloadAppTarget::All || self == ReloadAppTarget::Codex),
    {
        match self {
            ReloadAppTarget::All | ReloadAppTarget::Codex => true,
            ReloadAppTarget::Cursor => false,
        }
    }

    /// Whether the target covers Cursor.
    pub fn includes_cursor(self) -> (res: bool)
        ensures
            res == (self == ReloadAppTarget::All || self == ReloadAppTarget::Cursor),
    {
        match self {
            ReloadAppTarget::All | ReloadAppTarget::Cursor => true,
            ReloadAppTarget::Codex => false,
        }
    }

    /// The target's name in configuration and messages.
    pub fn label(self) -> (res: &'static str)
        ensures
            res@ == target_name(self),
    {
        match self {
            ReloadAppTarget::All => "all",
            ReloadAppTarget::Codex => "codex",
            ReloadAppTarget::Cursor => "cursor",
        }
    }
}

/// The name of a target.
pub open spec fn target_name(t: ReloadAppTarget) -> Seq<char> {
    match t {
        ReloadAppTarget::All => "all"@,
        ReloadAppTarget::Codex => "codex"@,
        ReloadAppTarget::Cursor => "cursor"@,
    }
}

// ---------------------------------------------------------------------------
// Hints
// ---------------------------------------------------------------------------

/// The hint for reloading Cursor's Codex extension by hand.
pub open spec fn cursor_hint() -> Seq<char> {
    "Cursor Codex extension: run Command Palette -> Developer: Reload Window."@
}

/// The hint for restarting the Codex app by hand.
pub open spec fn codex_hint() -> Seq<char> {
    "Codex app for Windows: if relaunch fails or account state still looks stale, open the app again manually."@
}

/// The hint for the extension that lets Cursor reload by protocol.
pub open spec fn helper_hint() -> Seq<char> {
    "Cursor automation: install the Commands Executor extension (ionutvmi.vscode-commands-executor) to enable protocol-based Reload Window."@
}

fn cursor_manual_hint() -> (res: String)
    ensures
        res@ == cursor_hint(),
{
    owned("Cursor Codex extension: run Command Palette -> Developer: Reload Window.")
}

fn codex_app_manual_hint() -> (res: String)
    ensures
        res@ == codex_hint(),
{
    owned(
        "Codex app for Windows: if relaunch fails or account state still looks stale, open the app again manually.",
    )
}

pub(crate) fn cursor_helper_hint() -> (res: String)
    ensures
        res@ == helper_hint(),
{
    owned(
        "Cursor automation: install the Commands Executor extension (ionutvmi.vscode-commands-executor) to enable protocol-based Reload Window.",
    )
}

/// Strings as texts.
pub open spec fn texts(v: Seq<String>) -> Seq<Seq<char>> {
    Seq::new(v.len(), |i: int| v[i]@)
}

/// The hints for a target: Cursor's two, then the Codex app's, as covered.
pub open spec fn default_hints(t: ReloadAppTarget) -> Seq<Seq<char>> {
    (if t != ReloadAppTarget::Codex {
        seq![cursor_hint(), helper_hint()]
    } else {
        Seq::empty()
    }) + (if t != ReloadAppTarget::Cursor {
        seq![codex_hint()]
    } else {
        Seq::empty()
    })
}

/// The manual steps for a target when nothing more specific is known.
pub fn default_manual_hints(target: ReloadAppTarget) -> (res: Vec<String>)
    ensures
        texts(res@) == default_hints(target),
{
    let mut hints: Vec<String> = Vec::new();
    if target.includes_cursor() {
        hints.push(cursor_manual_hint());
        hints.push(cursor_helper_hint());
    }
    if target.includes_codex() {
        hints.push(codex_app_manual_hint());
    }
    assert(texts(hints@) =~= default_hints(target));
    hints
}

/// Whether Cursor is asked to reload: always, except for the target `all`
/// while a standalone Codex app runs (its restart takes precedence).
pub fn should_dispatch_cursor_reload(target: ReloadAppTarget, has_standalone_codex: bool) -> (res:
    bool)
    ensures
        res == (target != ReloadAppTarget::All || !has_standalone_codex),
{
    !matches!(target, ReloadAppTarget::All) || !has_standalone_codex
}

// ---------------------------------------------------------------------------
// Classifying processes
// ---------------------------------------------------------------------------

/// A process path with `/` turned into `\` and in ASCII lowercase.
pub open spec fn normalized(p: Seq<char>) -> Seq<char> {
    lower_seq(replace_seq(p, seq!['/'], seq!['\\']))
}

/// The normalized executable path of a process.
pub fn normalized_path(process: &WindowsProcessInfo) -> (res: Option<String>)
    ensures
        match process.executable_path {
            Some(p) => res matches Some(n) && n@ == normalized(p@),
            None => res is None,
        },
{
    match &process.executable_path {
        Some(p) => {
            proof {
                reveal_strlit("/");
                reveal_strlit("\\");
            }
            let replaced = crate::text::replace_str(p.as_str(), "/", "\\");
            assert("/"@ =~= seq!['/']);
            assert("\\"@ =~= seq!['\\']);
            Some(crate::text::to_ascii_lowercase(replaced.as_str()))
        },
        None => None,
    }
}

/// Whether a process is Cursor itself.
pub fn is_cursor_process(process: &WindowsProcessInfo) -> (res: bool)
    ensures
        res == crate::text::eq_ignore_case(process.name@, "cursor.exe"@),
{
    crate::text::str_eq_ignore_case(process.name.as_str(), "cursor.exe")
}

/// Whether a process is the Codex binary of Cursor's extension.
pub open spec fn is_extension_path(p: Option<String>) -> bool {
    p matches Some(s) && contains_seq(normalized(s@), "\\openai.chatgpt-"@)
}

/// Whether a process is the standalone Codex app.
pub open spec fn is_standalone_path(p: Option<String>) -> bool {
    p matches Some(s) && contains_seq(normalized(s@), "\\windowsapps\\openai.codex_"@) && is_suffix(
        "\\app\\codex.exe"@,
        normalized(s@),
    )
}

/// Whether a process runs from Cursor's Codex extension.
pub fn is_cursor_extension_process(process: &WindowsProcessInfo) -> (res: bool)
    ensures
        res == is_extension_path(process.executable_path),
{
    match normalized_path(process) {
        Some(n) => contains(&chars_of(n.as_str()), &chars_of("\\openai.chatgpt-")),
        None => false,
    }
}

/// Whether a process is the standalone Codex app for Windows.
pub fn is_standalone_codex_app_process(process: &WindowsProcessInfo) -> (res: bool)
    ensures
        res == is_standalone_path(process.executable_path),
{
    match normalized_path(process) {
        Some(n) => {
            let v = chars_of(n.as_str());
            contains(&v, &chars_of("\\windowsapps\\openai.codex_")) && ends_with(
                &v,
                &chars_of("\\app\\codex.exe"),
            )
        },
        None => false,
    }
}

/// Process ids as a comma-separated list.
pub open spec fn pids_text(pids: Seq<u32>) -> Seq<char>
    decreases pids.len(),
{
    if pids.len() == 0 {
        Seq::empty()
    } else if pids.len() == 1 {
        dec_seq(pids[0] as nat)
    } else {
        pids_text(pids.drop_last()) + ", "@ + dec_seq(pids.last() as nat)
    }
}

/// Process ids as a comma-separated list.
pub fn join_pids(pids: &[u32]) -> (res: String)
    ensures
        res@ == pids_text(pids@),
{
    let mut out = String::new();
    let mut i: usize = 0;
    while i < pids.len()
        invariant
            i <= pids.len(),
            out@ == pids_text(pids@.take(i as int)),
        decreases pids.len() - i,
    {
        assert(pids@.take(i + 1).drop_last() =~= pids@.take(i as int));
        if i > 0 {
            push_str(&mut out, ", ");
        }
        push_str(&mut out, u64_to_string(pids[i] as u64).as_str());
        i = i + 1;
    }
    assert(pids@.take(pids.len() as int) =~= pids@);
    out
}

// ---------------------------------------------------------------------------
// Cursor protocol reload
// ---------------------------------------------------------------------------

/// Whether a byte is left as is in a query value.
pub open spec fn unreserved(b: u8) -> bool {
    (65 <= b && b <= 90) || (97 <= b && b <= 122) || (48 <= b && b <= 57) || b == 45 || b == 95
        || b == 46 || b == 126
}

/// A byte of a query value, percent-encoded where it is reserved.
pub open spec fn encode_byte(b: u8) -> Seq<char> {
    if unreserved(b) {
        seq![b as char]
    } else {
        seq!['%'] + hex_byte_upper(b)
    }
}

/// The bytes of a query value, percent-encoded.
pub open spec fn percent_encoded(bytes: Seq<u8>) -> Seq<char>
    decreases bytes.len(),
{
    if bytes.len() == 0 {
        Seq::empty()
    } else {
        percent_encoded(bytes.drop_last()) + encode_byte(bytes.last())
    }
}

/// A query value with every byte but `A-Z a-z 0-9 - _ . ~` percent-encoded in
/// uppercase hexadecimal.
pub fn percent_encode_query_value(raw: &str) -> (res: String)
    ensures
        res@ == percent_encoded(vstd::utf8::encode_utf8(raw@)),
{
    let bytes = raw.as_bytes();
    let mut out = String::new();
    let mut i: usize = 0;
    while i < bytes.len()
        invariant
            i <= bytes.len(),
            bytes@ == vstd::utf8::encode_utf8(raw@),
            out@ == percent_encoded(bytes@.take(i as int)),
        decreases bytes.len() - i,
    {
        assert(bytes@.take(i + 1).drop_last() =~= bytes@.take(i as int));
        let b = bytes[i];
        let keep = (65 <= b && b <= 90) || (97 <= b && b <= 122) || (48 <= b && b <= 57) || b == 45
            || b == 95 || b == 46 || b == 126;
        if keep {
            out.push(b as char);
        } else {
            out.push('%');
            push_chars(&mut out, &hex_byte_upper_chars(b));
        }
        i = i + 1;
    }
    assert(bytes@.take(bytes.len() as int) =~= bytes@);
    out
}

/// The command list that asks Cursor to reload its window.
pub open spec fn reload_payload() -> Seq<char> {
    "[{\"id\":\"workbench.action.reloadWindow\"}]"@
}

/// The URI that makes the Commands Executor extension reload Cursor's window.
pub fn build_cursor_reload_uri() -> (res: String)
    ensures
        res@ == "cursor://ionutvmi.vscode-commands-executor/runCommands?data="@ + percent_encoded(
            vstd::utf8::encode_utf8(reload_payload()),
        ),
{
    let encoded = percent_encode_query_value("[{\"id\":\"workbench.action.reloadWindow\"}]");
    concat("cursor://ionutvmi.vscode-commands-executor/runCommands?data=", encoded.as_str())
}

/// The executable of a Windows command line: the quoted text where the
/// trimmed line starts with `"`, else its first word.
pub open spec fn command_exe(raw: Seq<char>) -> Option<Seq<char>> {
    let t = trim_seq(raw);
    if t.len() == 0 {
        None
    } else if t[0] == '"' {
        match split_once_seq(t.drop_first(), '"') {
            Some((exe, _rest)) => Some(exe),
            None => None,
        }
    } else {
        Some(first_word(t))
    }
}

/// The characters of a text up to its first whitespace.
pub open spec fn first_word(t: Seq<char>) -> Seq<char>
    decreases t.len(),
{
    if t.len() == 0 || crate::text::is_ws(t[0]) {
        Seq::empty()
    } else {
        seq![t[0]] + first_word(t.drop_first())
    }
}

/// The executable that a registered command line starts.
pub fn parse_windows_command_exe(raw: &str) -> (res: Option<String>)
    ensures
        match command_exe(raw@) {
            Some(e) => res matches Some(s) && s@ == e,
            None => res is None,
        },
{
    let t = crate::text::trim_chars(&chars_of(raw));
    if t.len() == 0 {
        return None;
    }
    if t[0] == '"' {
        let rest = crate::text::slice_range(&t, 1, t.len());
        assert(rest@ =~= t@.drop_first());
        return match crate::text::split_once_chars(&rest, '"') {
            Some((exe, _)) => Some(string_of(&exe)),
            None => None,
        };
    }
    // The trimmed text starts with a non-space character: take the first word.
    let mut end: usize = 0;
    assert(t@.skip(0) =~= t@);
    assert(t@.take(0) + first_word(t@) =~= first_word(t@));
    while end < t.len() && !crate::text::is_ws_exec(t[end])
        invariant
            end <= t.len(),
            first_word(t@) == t@.take(end as int) + first_word(t@.skip(end as int)),
        decreases t.len() - end,
    {
        assert(t@.skip(end as int).drop_first() =~= t@.skip(end + 1));
        assert(t@.take(end + 1) =~= t@.take(end as int) + seq![t@[end as int]]);
        end = end + 1;
    }
    proof {
        assert(first_word(t@.skip(end as int)) =~= Seq::<char>::empty());
    }
    let w = crate::text::slice_range(&t, 0, end);
    assert(w@ =~= t@.take(end as int));
    Some(string_of(&w))
}

// ---------------------------------------------------------------------------
// Reading the app package
// ---------------------------------------------------------------------------

/// The text of the first tag that starts with `open_tag`, up to its `>`.
#[verifier::opaque]
pub open spec fn tag_fragment(xml: Seq<char>, open_tag: Seq<char>) -> Option<Seq<char>> {
    if !contains_seq(xml, open_tag) {
        None
    } else {
        let from = xml.skip(crate::text::find_pos(xml, open_tag));
        if !from.contains('>') {
            None
        } else {
            Some(from.take(crate::text::first_pos(from, '>')))
        }
    }
}

/// The quoted value after the first `needle` in a tag's text.
#[verifier::opaque]
pub open spec fn value_after(fragment: Seq<char>, needle: Seq<char>) -> Option<Seq<char>> {
    if !contains_seq(fragment, needle) {
        None
    } else {
        let rest = fragment.skip(crate::text::find_pos(fragment, needle) + needle.len());
        match split_once_seq(rest, '"') {
            Some((value, _)) => Some(value),
            None => None,
        }
    }
}

/// The value of an attribute of the first tag of a kind in an XML text.
pub open spec fn xml_attribute(xml: Seq<char>, tag: Seq<char>, attribute: Seq<char>) -> Option<
    Seq<char>,
> {
    match tag_fragment(xml, seq!['<'] + tag + seq![' ']) {
        None => None,
        Some(fragment) => value_after(fragment, attribute + seq!['=', '"']),
    }
}

fn tag_fragment_exec(x: &[char], open_tag: &[char]) -> (res: Option<Vec<char>>)
    ensures
        match tag_fragment(x@, open_tag@) {
            Some(f) => res matches Some(v) && v@ == f,
            None => res is None,
        },
{
    reveal(tag_fragment);
    let start = match crate::text::find(x, open_tag) {
        Some(s) => s,
        None => return None,
    };
    let from = crate::text::slice_range(x, start, x.len());
    assert(from@ =~= x@.skip(start as int));
    let end = match crate::text::position_of(&from, '>') {
        Some(e) => {
            proof {
                crate::text::lemma_index_of_first(from@, '>', e as int);
            }
            e
        },
        None => return None,
    };
    let fragment = crate::text::slice_range(&from, 0, end);
    assert(fragment@ =~= from@.take(end as int));
    Some(fragment)
}

fn value_after_exec(fragment: &[char], needle: &[char]) -> (res: Option<String>)
    ensures
        match value_after(fragment@, needle@) {
            Some(v) => res matches Some(s) && s@ == v,
            None => res is None,
        },
{
    reveal(value_after);
    let at = match crate::text::find(fragment, needle) {
        Some(a) => a,
        None => return None,
    };
    assert(crate::text::occurs_at(fragment@, needle@, at as int));
    assert(at + needle@.len() <= fragment@.len());
    let n = needle.len();
    let total = fragment.len();
    assert(at + n <= total);
    let rest = crate::text::slice_range(fragment, at + n, total);
    assert(rest@ =~= fragment@.skip(at + needle@.len()));
    match crate::text::split_once_chars(&rest, '"') {
        Some((value, _)) => Some(string_of(&value)),
        None => None,
    }
}

/// The value of `attribute` in the first `<tag ...>` of an XML text.
pub fn extract_xml_attribute(xml: &str, tag: &str, attribute: &str) -> (res: Option<String>)
    ensures
        match xml_attribute(xml@, tag@, attribute@) {
            Some(v) => res matches Some(s) && s@ == v,
            None => res is None,
        },
{
    let x = chars_of(xml);
    let mut open_tag: Vec<char> = vec!['<'];
    push_all(&mut open_tag, &chars_of(tag));
    open_tag.push(' ');
    assert(open_tag@ =~= seq!['<'] + tag@ + seq![' ']);
    let fragment = match tag_fragment_exec(&x, &open_tag) {
        Some(f) => f,
        None => return None,
    };
    let mut needle = chars_of(attribute);
    needle.push('=');
    needle.push('"');
    assert(needle@ =~= attribute@ + seq!['=', '"']);
    value_after_exec(&fragment, &needle)
}

fn push_all(v: &mut Vec<char>, w: &[char])
    ensures
        final(v)@ == old(v)@ + w@,
{
    let ghost start = v@;
    let mut k: usize = 0;
    while k < w.len()
        invariant
            k <= w.len(),
            v@ == start + w@.take(k as int),
        decreases w.len() - k,
    {
        v.push(w[k]);
        k = k + 1;
        assert(v@ =~= start + w@.take(k as int));
    }
    assert(w@.take(w.len() as int) =~= w@);
}

// ---------------------------------------------------------------------------
// Launch targets
// ---------------------------------------------------------------------------

/// A Windows path joined with one more part, as `PathBuf::join` does on
/// Windows: with a `\` in between unless the path already ends in a
/// separator.
pub open spec fn win_join(base: Seq<char>, part: Seq<char>) -> Seq<char> {
    if base.len() > 0 && (base.last() == '\\' || base.last() == '/') {
        base + part
    } else {
        base + seq!['\\'] + part
    }
}

fn win_join_exec(base: &str, part: &str) -> (res: String)
    ensures
        res@ == win_join(base@, part@),
{
    let b = chars_of(base);
    let mut out = owned(base);
    if !(b.len() > 0 && (b[b.len() - 1] == '\\' || b[b.len() - 1] == '/')) {
        out.push('\\');
    }
    push_str(&mut out, part);
    out
}

/// A trimmed optional text, where it is not empty.
pub open spec fn trimmed_opt(o: Option<String>) -> Option<Seq<char>> {
    match o {
        Some(s) => if trim_seq(s@).len() > 0 {
            Some(trim_seq(s@))
        } else {
            None
        },
        None => None,
    }
}

fn trimmed_opt_exec(o: &Option<String>) -> (res: Option<String>)
    ensures
        crate::auth::opt_seq(res) == trimmed_opt(*o),
{
    match o {
        Some(s) => {
            let t = crate::text::trim_str(s.as_str());
            if t.as_str().is_empty() {
                None
            } else {
                Some(t)
            }
        },
        None => None,
    }
}

/// The launch target of an installed Codex package: `app\Codex.exe` under its
/// install location, with the app id `{family}!App` where the package names
/// its family, else the given fallback; none without an install location.
pub fn codex_launch_target_from_package(package: &AppxPackageInfo, fallback_app_id: Option<String>) -> (res:
    Option<CodexAppLaunchTarget>)
    ensures
        match trimmed_opt(package.install_location) {
            None => res is None,
            Some(loc) => res matches Some(t) && {
                &&& t.executable_path@ == win_join(win_join(loc, "app"@), "Codex.exe"@)
                &&& crate::auth::opt_seq(t.app_user_model_id) == match trimmed_opt(
                    package.package_family_name,
                ) {
                    Some(f) => Some(f + "!App"@),
                    None => crate::auth::opt_seq(fallback_app_id),
                }
                &&& t.source@ == "Get-AppxPackage"@
            },
        },
{
    let loc = match trimmed_opt_exec(&package.install_location) {
        Some(l) => l,
        None => return None,
    };
    let app_dir = win_join_exec(loc.as_str(), "app");
    let exe = win_join_exec(app_dir.as_str(), "Codex.exe");
    let aumid = match trimmed_opt_exec(&package.package_family_name) {
        Some(f) => Some(concat(f.as_str(), "!App")),
        None => fallback_app_id,
    };
    Some(CodexAppLaunchTarget { executable_path: exe, app_user_model_id: aumid, source: owned("Get-AppxPackage") })
}

/// The app id of the Codex package, from the package directory's name
/// (`{name}__{publisher}`) and its manifest: `{identity}_{publisher}!{app}`.
pub open spec fn manifest_app_id(package_dir_name: Seq<char>, manifest: Seq<char>) -> Option<
    Seq<char>,
> {
    match crate::text::split_once_str_seq(package_dir_name, "__"@) {
        None => None,
        Some((_name, publisher)) => match (
            xml_attribute(manifest, "Identity"@, "Name"@),
            xml_attribute(manifest, "Application"@, "Id"@),
        ) {
            (Some(identity), Some(app)) => Some(identity + seq!['_'] + publisher + seq!['!'] + app),
            _ => None,
        },
    }
}

/// The app id of the Codex package with the given directory name and
/// manifest text.
pub fn codex_app_id_from_manifest(package_dir_name: &str, manifest: &str) -> (res: Option<String>)
    ensures
        crate::auth::opt_seq(res) == manifest_app_id(package_dir_name@, manifest@),
{
    let publisher = match crate::text::split_once_str(package_dir_name, "__") {
        Some((_name, p)) => p,
        None => return None,
    };
    let identity = match extract_xml_attribute(manifest, "Identity", "Name") {
        Some(i) => i,
        None => return None,
    };
    let app = match extract_xml_attribute(manifest, "Application", "Id") {
        Some(a) => a,
        None => return None,
    };
    let mut out = identity;
    out.push('_');
    push_str(&mut out, publisher.as_str());
    out.push('!');
    push_str(&mut out, app.as_str());
    Some(out)
}

// ---------------------------------------------------------------------------
// What a reload detected, did, and reports
// ---------------------------------------------------------------------------

/// What the process list shows for a reload target.
#[derive(Debug, Clone)]
pub struct ReloadDetection {
    pub cursor_detected: bool,
    pub extension_detected: bool,
    pub standalone_app_pids: Vec<u32>,
}

/// Whether any process satisfies a test, as a spec over the list.
pub open spec fn any_cursor(ps: Seq<WindowsProcessInfo>) -> bool {
    exists|i: int| 0 <= i < ps.len() && crate::text::eq_ignore_case((#[trigger] ps[i]).name@, "cursor.exe"@)
}

/// Whether any process runs from Cursor's extension.
pub open spec fn any_extension(ps: Seq<WindowsProcessInfo>) -> bool {
    exists|i: int| 0 <= i < ps.len() && is_extension_path((#[trigger] ps[i]).executable_path)
}

/// The ids of the standalone Codex app processes, in order.
pub open spec fn standalone_pids(ps: Seq<WindowsProcessInfo>) -> Seq<u32>
    decreases ps.len(),
{
    if ps.len() == 0 {
        Seq::empty()
    } else if is_standalone_path(ps.last().executable_path) {
        standalone_pids(ps.drop_last()).push(ps.last().process_id)
    } else {
        standalone_pids(ps.drop_last())
    }
}

/// What the running processes show for a target: Cursor and its extension
/// only where the target covers Cursor, the Codex app only where it covers
/// Codex.
pub fn detect_reload_targets(target: ReloadAppTarget, processes: &[WindowsProcessInfo]) -> (res:
    ReloadDetection)
    ensures
        res.cursor_detected == (target != ReloadAppTarget::Codex && any_cursor(processes@)),
        res.extension_detected == (target != ReloadAppTarget::Codex && any_extension(processes@)),
        res.standalone_app_pids@ == (if target != ReloadAppTarget::Cursor {
            standalone_pids(processes@)
        } else {
            Seq::empty()
        }),
{
    let mut cursor = false;
    let mut extension = false;
    let mut pids: Vec<u32> = Vec::new();
    let mut i: usize = 0;
    while i < processes.len()
        invariant
            i <= processes.len(),
            cursor == any_cursor(processes@.take(i as int)),
            extension == any_extension(processes@.take(i as int)),
            pids@ == standalone_pids(processes@.take(i as int)),
        decreases processes.len() - i,
    {
        let ghost pre = processes@.take(i as int);
        let ghost post = processes@.take(i + 1);
        assert(post.drop_last() =~= pre);
        assert(post.last() == processes@[i as int]);
        let p = &processes[i];
        let c = is_cursor_process(p);
        let e = is_cursor_extension_process(p);
        proof {
            assert(post[i as int] == processes@[i as int]);
            assert(any_cursor(post) == (any_cursor(pre) || c)) by {
                if any_cursor(post) && !c {
                    let k = choose|k: int| 0 <= k < post.len() && crate::text::eq_ignore_case((#[trigger] post[k]).name@, "cursor.exe"@);
                    assert(pre[k] == post[k]);
                }
                if any_cursor(pre) {
                    let k = choose|k: int| 0 <= k < pre.len() && crate::text::eq_ignore_case((#[trigger] pre[k]).name@, "cursor.exe"@);
                    assert(pre[k] == post[k]);
                }
            }
            assert(any_extension(post) == (any_extension(pre) || e)) by {
                if any_extension(post) && !e {
                    let k = choose|k: int| 0 <= k < post.len() && is_extension_path((#[trigger] post[k]).executable_path);
                    assert(pre[k] == post[k]);
                }
                if any_extension(pre) {
                    let k = choose|k: int| 0 <= k < pre.len() && is_extension_path((#[trigger] pre[k]).executable_path);
                    assert(pre[k] == post[k]);
                }
            }
        }
        cursor = cursor || c;
        extension = extension || e;
        if is_standalone_codex_app_process(p) {
            pids.push(p.process_id);
        }
        i = i + 1;
    }
    assert(processes@.take(processes.len() as int) =~= processes@);
    let covers_cursor = target.includes_cursor();
    let covers_codex = target.includes_codex();
    ReloadDetection {
        cursor_detected: covers_cursor && cursor,
        extension_detected: covers_cursor && extension,
        standalone_app_pids: if covers_codex {
            pids
        } else {
            Vec::new()
        },
    }
}

/// The manual steps after a reload: Cursor's (with the helper hint where no
/// protocol reload is possible) where Cursor was seen, the Codex app's where
/// it runs, else the target's defaults.
pub open spec fn outcome_hints(
    target: ReloadAppTarget,
    cursor_seen: bool,
    has_automation: bool,
    has_pids: bool,
) -> Seq<Seq<char>> {
    let hints = (if cursor_seen {
        seq![cursor_hint()] + if has_automation {
            Seq::<Seq<char>>::empty()
        } else {
            seq![helper_hint()]
        }
    } else {
        Seq::empty()
    }) + if has_pids {
        seq![codex_hint()]
    } else {
        Seq::empty()
    };
    if hints.len() == 0 {
        default_hints(target)
    } else {
        hints
    }
}

/// Texts joined by a separator.
pub open spec fn joined(ts: Seq<Seq<char>>, sep: Seq<char>) -> Seq<char>
    decreases ts.len(),
{
    if ts.len() == 0 {
        Seq::empty()
    } else if ts.len() == 1 {
        ts[0]
    } else {
        joined(ts.drop_last(), sep) + sep + ts.last()
    }
}

/// What a reload reports, as `(attempted, restarted, message)`.
pub open spec fn outcome_report(
    dry_run: bool,
    target: ReloadAppTarget,
    cursor_seen: bool,
    automation_uri: Option<Seq<char>>,
    pids: Seq<u32>,
    launch_source: Option<Seq<char>>,
    killed: Seq<u32>,
    issues: Seq<Seq<char>>,
    codex_relaunched: bool,
    cursor_dispatched: bool,
) -> (bool, bool, Seq<char>) {
    if dry_run && pids.len() > 0 {
        (
            false,
            false,
            "Reload hint: dry run detected standalone Codex app processes (PID "@ + pids_text(pids)
                + ")."@ + match launch_source {
                Some(src) => " Relaunch target is available ("@ + src + ")"@ + "."@,
                None => " Relaunch target could not be resolved."@,
            } + if cursor_seen {
                match automation_uri {
                    Some(uri) => " Cursor protocol reload is available via "@ + uri + "."@,
                    None => " Cursor extension would still require a separate window reload."@,
                }
            } else {
                Seq::empty()
            },
        )
    } else if dry_run && cursor_seen {
        (
            false,
            false,
            match automation_uri {
                Some(uri) => "Reload hint: dry run detected Cursor Codex extension; protocol reload is available via "@
                    + uri + "."@,
                None => "Reload hint: dry run detected Cursor Codex extension; actual reload would still be manual via Reload Window."@,
            },
        )
    } else if killed.len() > 0 {
        (
            true,
            true,
            (if codex_relaunched {
                "Reload hint: restarted standalone Codex app (terminated PID "@ + pids_text(killed)
                    + " and launched it again)."@
            } else {
                "Reload hint: terminated standalone Codex app processes (PID "@ + pids_text(killed)
                    + ")."@
            }) + if cursor_dispatched {
                " Cursor reload was requested via protocol command path."@
            } else if cursor_seen {
                " Cursor stays running because extension reload requires a window reload."@
            } else {
                Seq::empty()
            },
        )
    } else if issues.len() > 0 {
        (pids.len() > 0, false, "Reload hint: "@ + joined(issues, "; "@))
    } else if cursor_seen {
        (
            cursor_dispatched,
            cursor_dispatched,
            if cursor_dispatched {
                "Reload hint: requested Cursor Codex extension reload via protocol command path."@
            } else {
                "Reload hint: detected Cursor Codex extension; automatic extension reload is not implemented."@
            },
        )
    } else if pids.len() > 0 {
        (
            false,
            false,
            "Reload hint: detected standalone Codex app, but no process termination was needed."@,
        )
    } else {
        (
            false,
            false,
            "Reload hint: no supported Cursor/Codex Windows targets were detected for target '"@
                + target_name(target) + "'."@,
        )
    }
}

/// Whether a text starts with the prefix of every reload report.
pub open spec fn hint_line(m: Seq<char>) -> bool {
    "Reload hint: "@.is_prefix_of(m)
}

proof fn lemma_hint_prefix(lit: Seq<char>, rest: Seq<char>)
    requires
        hint_line(lit),
    ensures
        hint_line(lit + rest),
{
    assert((lit + rest).subrange(0, "Reload hint: "@.len() as int) =~= lit.subrange(
        0,
        "Reload hint: "@.len() as int,
    ));
}

proof fn lemma_literal_hint(lit: Seq<char>)
    requires
        lit.len() >= 13,
        lit.subrange(0, 13) =~= "Reload hint: "@,
    ensures
        hint_line(lit),
{
    reveal_strlit("Reload hint: ");
}

/// What every reload report keeps: a restart is an attempt, the message is
/// a reload hint, and a dry run in which nothing was terminated attempts
/// and restarts nothing.
pub proof fn lemma_outcome_report_laws(
    dry_run: bool,
    target: ReloadAppTarget,
    cursor_seen: bool,
    automation_uri: Option<Seq<char>>,
    pids: Seq<u32>,
    launch_source: Option<Seq<char>>,
    killed: Seq<u32>,
    issues: Seq<Seq<char>>,
    codex_relaunched: bool,
    cursor_dispatched: bool,
)
    ensures
        ({
            let (attempted, restarted, message) = outcome_report(
                dry_run,
                target,
                cursor_seen,
                automation_uri,
                pids,
                launch_source,
                killed,
                issues,
                codex_relaunched,
                cursor_dispatched,
            );
            &&& restarted ==> attempted
            &&& hint_line(message)
            &&& dry_run && killed.len() == 0 ==> !attempted && !restarted
        }),
{
    reveal_strlit("Reload hint: ");
    let l1 = "Reload hint: dry run detected standalone Codex app processes (PID "@;
    let l2 = "Reload hint: dry run detected Cursor Codex extension; protocol reload is available via "@;
    let l3 = "Reload hint: dry run detected Cursor Codex extension; actual reload would still be manual via Reload Window."@;
    let l4 = "Reload hint: restarted standalone Codex app (terminated PID "@;
    let l5 = "Reload hint: terminated standalone Codex app processes (PID "@;
    let l6 = "Reload hint: requested Cursor Codex extension reload via protocol command path."@;
    let l7 = "Reload hint: detected Cursor Codex extension; automatic extension reload is not implemented."@;
    let l8 = "Reload hint: detected standalone Codex app, but no process termination was needed."@;
    let l9 = "Reload hint: no supported Cursor/Codex Windows targets were detected for target '"@;
    reveal_strlit("Reload hint: dry run detected standalone Codex app processes (PID ");
    reveal_strlit("Reload hint: dry run detected Cursor Codex extension; protocol reload is available via ");
    reveal_strlit("Reload hint: dry run detected Cursor Codex extension; actual reload would still be manual via Reload Window.");
    reveal_strlit("Reload hint: restarted standalone Codex app (terminated PID ");
    reveal_strlit("Reload hint: terminated standalone Codex app processes (PID ");
    reveal_strlit("Reload hint: requested Cursor Codex extension reload via protocol command path.");
    reveal_strlit("Reload hint: detected Cursor Codex extension; automatic extension reload is not implemented.");
    reveal_strlit("Reload hint: detected standalone Codex app, but no process termination was needed.");
    reveal_strlit("Reload hint: no supported Cursor/Codex Windows targets were detected for target '");
    lemma_literal_hint(l1);
    lemma_literal_hint(l2);
    lemma_literal_hint(l3);
    lemma_literal_hint(l4);
    lemma_literal_hint(l5);
    lemma_literal_hint(l6);
    lemma_literal_hint(l7);
    lemma_literal_hint(l8);
    lemma_literal_hint(l9);
    let (attempted, restarted, message) = outcome_report(
        dry_run,
        target,
        cursor_seen,
        automation_uri,
        pids,
        launch_source,
        killed,
        issues,
        codex_relaunched,
        cursor_dispatched,
    );
    if dry_run && pids.len() > 0 {
        let a = l1 + pids_text(pids);
        lemma_hint_prefix(l1, pids_text(pids));
        let b = a + ")."@;
        lemma_hint_prefix(a, ")."@);
        let c = match launch_source {
            Some(src) => " Relaunch target is available ("@ + src + ")"@ + "."@,
            None => " Relaunch target could not be resolved."@,
        };
        lemma_hint_prefix(b, c);
        let d = if cursor_seen {
            match automation_uri {
                Some(uri) => " Cursor protocol reload is available via "@ + uri + "."@,
                None => " Cursor extension would still require a separate window reload."@,
            }
        } else {
            Seq::empty()
        };
        lemma_hint_prefix(b + c, d);
    } else if dry_run && cursor_seen {
        match automation_uri {
            Some(uri) => {
                lemma_hint_prefix(l2, uri);
                lemma_hint_prefix(l2 + uri, "."@);
            },
            None => {},
        }
    } else if killed.len() > 0 {
        let head = if codex_relaunched {
            lemma_hint_prefix(l4, pids_text(killed));
            lemma_hint_prefix(l4 + pids_text(killed), " and launched it again)."@);
            l4 + pids_text(killed) + " and launched it again)."@
        } else {
            lemma_hint_prefix(l5, pids_text(killed));
            lemma_hint_prefix(l5 + pids_text(killed), ")."@);
            l5 + pids_text(killed) + ")."@
        };
        let tail = if cursor_dispatched {
            " Cursor reload was requested via protocol command path."@
        } else if cursor_seen {
            " Cursor stays running because extension reload requires a window reload."@
        } else {
            Seq::empty()
        };
        lemma_hint_prefix(head, tail);
    } else if issues.len() > 0 {
        lemma_hint_prefix("Reload hint: "@, joined(issues, "; "@));
    } else if cursor_seen {
    } else if pids.len() > 0 {
    } else {
        lemma_hint_prefix(l9, target_name(target));
        lemma_hint_prefix(l9 + target_name(target), "'."@);
    }
}

proof fn lemma_outcome_hints_nonempty(
    target: ReloadAppTarget,
    cursor_seen: bool,
    has_automation: bool,
    has_pids: bool,
)
    ensures
        outcome_hints(target, cursor_seen, has_automation, has_pids).len() > 0,
{
}

/// The commands that a reload runs: the processes it terminates and
/// whether it sends Cursor the reload command. A relaunch of the Codex app
/// follows only a termination.
#[derive(Debug, Clone)]
pub struct ReloadCommands {
    pub kill_pids: Vec<u32>,
    pub dispatch_cursor: bool,
}

/// The processes a reload terminates: none in a dry run.
pub open spec fn kill_list(dry_run: bool, pids: Seq<u32>) -> Seq<u32> {
    if dry_run {
        Seq::empty()
    } else {
        pids
    }
}

/// Whether a reload sends Cursor the reload command: never in a dry run.
pub open spec fn sends_cursor_reload(
    dry_run: bool,
    target: ReloadAppTarget,
    has_pids: bool,
    has_automation: bool,
) -> bool {
    !dry_run && (target != ReloadAppTarget::All || !has_pids) && has_automation
}

/// The commands a reload runs for what was detected.
pub fn reload_commands(
    dry_run: bool,
    target: ReloadAppTarget,
    detection: &ReloadDetection,
    has_automation: bool,
) -> (res: ReloadCommands)
    ensures
        res.kill_pids@ == kill_list(dry_run, detection.standalone_app_pids@),
        res.dispatch_cursor == sends_cursor_reload(
            dry_run,
            target,
            detection.standalone_app_pids.len() > 0,
            has_automation,
        ),
{
    if dry_run {
        return ReloadCommands { kill_pids: Vec::new(), dispatch_cursor: false };
    }
    let has_pids = detection.standalone_app_pids.len() > 0;
    ReloadCommands {
        kill_pids: detection.standalone_app_pids.clone(),
        dispatch_cursor: should_dispatch_cursor_reload(target, has_pids) && has_automation,
    }
}

/// A dry run changes nothing: it terminates no process, so relaunches
/// none, sends Cursor no command, and its outcome reports nothing attempted
/// or restarted. `killed` is what was terminated, among the commands'
/// processes.
pub proof fn lemma_dry_run_changes_nothing(
    target: ReloadAppTarget,
    cursor_seen: bool,
    automation_uri: Option<Seq<char>>,
    pids: Seq<u32>,
    launch_source: Option<Seq<char>>,
    killed: Seq<u32>,
    issues: Seq<Seq<char>>,
    codex_relaunched: bool,
)
    requires
        forall|i: int| 0 <= i < killed.len() ==> kill_list(true, pids).contains(#[trigger] killed[i]),
    ensures
        kill_list(true, pids).len() == 0,
        !sends_cursor_reload(true, target, pids.len() > 0, automation_uri is Some),
        killed.len() == 0,
        !outcome_report(
            true,
            target,
            cursor_seen,
            automation_uri,
            pids,
            launch_source,
            killed,
            issues,
            codex_relaunched,
            false,
        ).0,
        !outcome_report(
            true,
            target,
            cursor_seen,
            automation_uri,
            pids,
            launch_source,
            killed,
            issues,
            codex_relaunched,
            false,
        ).1,
{
    if killed.len() > 0 {
        assert(kill_list(true, pids).contains(killed[0]));
    }
    lemma_outcome_report_laws(
        true,
        target,
        cursor_seen,
        automation_uri,
        pids,
        launch_source,
        killed,
        issues,
        codex_relaunched,
        false,
    );
}

fn join_issues(issues: &Vec<String>) -> (res: String)
    ensures
        res@ == joined(texts(issues@), "; "@),
{
    let mut out = String::new();
    let mut i: usize = 0;
    while i < issues.len()
        invariant
            i <= issues.len(),
            out@ == joined(texts(issues@.take(i as int)), "; "@),
        decreases issues.len() - i,
    {
        let ghost t = texts(issues@.take(i + 1));
        assert(t.drop_last() =~= texts(issues@.take(i as int)));
        assert(t.last() == issues@[i as int]@);
        if i > 0 {
            push_str(&mut out, "; ");
        } else {
            assert(t =~= seq![issues@[0]@]);
        }
        push_str(&mut out, issues[i].as_str());
        i = i + 1;
    }
    assert(issues@.take(issues.len() as int) =~= issues@);
    out
}

fn outcome_hints_exec(
    target: ReloadAppTarget,
    cursor_seen: bool,
    has_automation: bool,
    has_pids: bool,
) -> (res: Vec<String>)
    ensures
        texts(res@) == outcome_hints(target, cursor_seen, has_automation, has_pids),
{
    let mut hints: Vec<String> = Vec::new();
    if cursor_seen {
        hints.push(cursor_manual_hint());
        if !has_automation {
            hints.push(cursor_helper_hint());
        }
    }
    if has_pids {
        hints.push(codex_app_manual_hint());
    }
    if hints.len() == 0 {
        return default_manual_hints(target);
    }
    assert(texts(hints@) =~= outcome_hints(target, cursor_seen, has_automation, has_pids));
    hints
}

/// The outcome of a reload (or, for a dry run, of inspecting what a reload
/// would do), from what was detected and what the commands gave.
pub fn reload_outcome(
    dry_run: bool,
    target: ReloadAppTarget,
    detection: &ReloadDetection,
    automation_uri: Option<&str>,
    launch_source: Option<&str>,
    killed: &Vec<u32>,
    issues: &Vec<String>,
    codex_relaunched: bool,
    cursor_reload_dispatched: bool,
) -> (res: IdeReloadOutcome)
    ensures
        ({
            let cursor_seen = detection.cursor_detected || detection.extension_detected;
            let uri = match automation_uri {
                Some(u) => Some(u@),
                None => None,
            };
            let src = match launch_source {
                Some(s) => Some(s@),
                None => None,
            };
            let (attempted, restarted, message) = outcome_report(
                dry_run,
                target,
                cursor_seen,
                uri,
                detection.standalone_app_pids@,
                src,
                killed@,
                texts(issues@),
                codex_relaunched,
                cursor_reload_dispatched,
            );
            &&& res.attempted == attempted
            &&& res.restarted == restarted
            &&& res.message@ == message
            &&& texts(res.manual_hints@) == outcome_hints(
                target,
                cursor_seen,
                automation_uri is Some,
                detection.standalone_app_pids.len() > 0,
            )
        }),
        res.restarted ==> res.attempted,
        res.manual_hints.len() > 0,
        "Reload hint: "@.is_prefix_of(res.message@),
        dry_run && killed.len() == 0 ==> !res.attempted && !res.restarted,
{
    proof {
        let cursor_seen = detection.cursor_detected || detection.extension_detected;
        lemma_outcome_report_laws(
            dry_run,
            target,
            cursor_seen,
            match automation_uri {
                Some(u) => Some(u@),
                None => None,
            },
            detection.standalone_app_pids@,
            match launch_source {
                Some(s) => Some(s@),
                None => None,
            },
            killed@,
            texts(issues@),
            codex_relaunched,
            cursor_reload_dispatched,
        );
        lemma_outcome_hints_nonempty(
            target,
            cursor_seen,
            automation_uri is Some,
            detection.standalone_app_pids.len() > 0,
        );
    }
    let cursor_seen = detection.cursor_detected || detection.extension_detected;
    let pids = &detection.standalone_app_pids;
    let manual_hints = outcome_hints_exec(
        target,
        cursor_seen,
        automation_uri.is_some(),
        pids.len() > 0,
    );
    if dry_run && pids.len() > 0 {
        let mut message = owned("Reload hint: dry run detected standalone Codex app processes (PID ");
        push_str(&mut message, join_pids(pids.as_slice()).as_str());
        push_str(&mut message, ").");
        match launch_source {
            Some(src) => {
                push_str(&mut message, " Relaunch target is available (");
                push_str(&mut message, src);
                push_str(&mut message, ")");
                push_str(&mut message, ".");
            },
            None => push_str(&mut message, " Relaunch target could not be resolved."),
        }
        if cursor_seen {
            match automation_uri {
                Some(uri) => {
                    push_str(&mut message, " Cursor protocol reload is available via ");
                    push_str(&mut message, uri);
                    push_str(&mut message, ".");
                },
                None => push_str(
                    &mut message,
                    " Cursor extension would still require a separate window reload.",
                ),
            }
        }
        return IdeReloadOutcome { attempted: false, restarted: false, message, manual_hints };
    }
    if dry_run && cursor_seen {
        let message = match automation_uri {
            Some(uri) => concat3(
                "Reload hint: dry run detected Cursor Codex extension; protocol reload is available via ",
                uri,
                ".",
            ),
            None => owned(
                "Reload hint: dry run detected Cursor Codex extension; actual reload would still be manual via Reload Window.",
            ),
        };
        return IdeReloadOutcome { attempted: false, restarted: false, message, manual_hints };
    }
    if killed.len() > 0 {
        let mut message = if codex_relaunched {
            concat3(
                "Reload hint: restarted standalone Codex app (terminated PID ",
                join_pids(killed.as_slice()).as_str(),
                " and launched it again).",
            )
        } else {
            concat3(
                "Reload hint: terminated standalone Codex app processes (PID ",
                join_pids(killed.as_slice()).as_str(),
                ").",
            )
        };
        if cursor_reload_dispatched {
            push_str(&mut message, " Cursor reload was requested via protocol command path.");
        } else if cursor_seen {
            push_str(
                &mut message,
                " Cursor stays running because extension reload requires a window reload.",
            );
        }
        return IdeReloadOutcome { attempted: true, restarted: true, message, manual_hints };
    }
    if issues.len() > 0 {
        let message = concat("Reload hint: ", join_issues(issues).as_str());
        return IdeReloadOutcome {
            attempted: pids.len() > 0,
            restarted: false,
            message,
            manual_hints,
        };
    }
    if cursor_seen {
        let message = if cursor_reload_dispatched {
            owned("Reload hint: requested Cursor Codex extension reload via protocol command path.")
        } else {
            owned(
                "Reload hint: detected Cursor Codex extension; automatic extension reload is not implemented.",
            )
        };
        return IdeReloadOutcome {
            attempted: cursor_reload_dispatched,
            restarted: cursor_reload_dispatched,
            message,
            manual_hints,
        };
    }
    if pids.len() > 0 {
        return IdeReloadOutcome {
            attempted: false,
            restarted: false,
            message: owned(
                "Reload hint: detected standalone Codex app, but no process termination was needed.",
            ),
            manual_hints,
        };
    }
    let message = concat3(
        "Reload hint: no supported Cursor/Codex Windows targets were detected for target '",
        target.label(),
        "'.",
    );
    IdeReloadOutcome { attempted: false, restarted: false, message, manual_hints }
}

/// The outcome when the running processes could not be listed.
pub fn reload_inspection_failed(target: ReloadAppTarget, err: &str) -> (res: IdeReloadOutcome)
    ensures
        !res.attempted,
        !res.restarted,
        res.message@ == "Reload hint: failed to inspect running IDE processes ("@ + err@ + ")."@,
        texts(res.manual_hints@) == default_hints(target),
        hint_line(res.message@),
        res.manual_hints.len() > 0,
{
    proof {
        let l = "Reload hint: failed to inspect running IDE processes ("@;
        reveal_strlit("Reload hint: failed to inspect running IDE processes (");
        reveal_strlit("Reload hint: ");
        lemma_literal_hint(l);
        lemma_hint_prefix(l, err@);
        lemma_hint_prefix(l + err@, ")."@);
        assert(default_hints(target).len() > 0);
    }
    IdeReloadOutcome {
        attempted: false,
        restarted: false,
        message: concat3("Reload hint: failed to inspect running IDE processes (", err, ")."),
        manual_hints: default_manual_hints(target),
    }
}

// ---------------------------------------------------------------------------
// Builds without Windows support
// ---------------------------------------------------------------------------

/// The message of a build that cannot reload IDEs.
pub open spec fn unsupported_message() -> Seq<char> {
    "IDE auto-reload is only implemented for Windows in this build."@
}

/// Reloading in a build without Windows support: nothing is attempted, and
/// the manual steps for the target are given.
pub fn reload_ide_target_best_effort_with_codex_override(
    target: ReloadAppTarget,
    codex_override: Option<&CodexAppOverride>,
) -> (res: IdeReloadOutcome)
    ensures
        !res.attempted,
        !res.restarted,
        res.message@ == unsupported_message(),
        texts(res.manual_hints@) == default_hints(target),
{
    IdeReloadOutcome {
        attempted: false,
        restarted: false,
        message: owned("IDE auto-reload is only implemented for Windows in this build."),
        manual_hints: default_manual_hints(target),
    }
}

/// Reloading a target without an app override.
pub fn reload_ide_target_best_effort(target: ReloadAppTarget) -> (res: IdeReloadOutcome)
    ensures
        !res.attempted,
        !res.restarted,
        res.message@ == unsupported_message(),
        texts(res.manual_hints@) == default_hints(target),
{
    reload_ide_target_best_effort_with_codex_override(target, None)
}

/// Reloading every supported app.
pub fn reload_ide_best_effort() -> (res: IdeReloadOutcome)
    ensures
        !res.attempted,
        !res.restarted,
        res.message@ == unsupported_message(),
        texts(res.manual_hints@) == default_hints(ReloadAppTarget::All),
{
    reload_ide_target_best_effort(ReloadAppTarget::All)
}

/// Inspecting what a reload would do, in a build without Windows support.
pub fn inspect_ide_reload_target_with_codex_override(
    target: ReloadAppTarget,
    codex_override: Option<&CodexAppOverride>,
) -> (res: IdeReloadOutcome)
    ensures
        !res.attempted,
        !res.restarted,
        res.message@ == unsupported_message(),
        texts(res.manual_hints@) == default_hints(target),
{
    reload_ide_target_best_effort_with_codex_override(target, codex_override)
}

/// Inspecting a target without an app override.
pub fn inspect_ide_reload_target(target: ReloadAppTarget) -> (res: IdeReloadOutcome)
    ensures
        !res.attempted,
        !res.restarted,
        res.message@ == unsupported_message(),
        texts(res.manual_hints@) == default_hints(target),
{
    inspect_ide_reload_target_with_codex_override(target, None)
}

/// Inspecting every supported app.
pub fn inspect_ide_reload() -> (res: IdeReloadOutcome)
    ensures
        !res.attempted,
        !res.restarted,
        res.message@ == unsupported_message(),
        texts(res.manual_hints@) == default_hints(ReloadAppTarget::All),
{
    inspect_ide_reload_target(ReloadAppTarget::All)
}

/// The launch target used for the Codex app: the one from the configured
/// override, else the one from the environment's override, else the one of
/// the running app process.
pub fn choose_launch_target(
    from_config: Option<CodexAppLaunchTarget>,
    from_env: Option<CodexAppLaunchTarget>,
    from_process: Option<CodexAppLaunchTarget>,
) -> (res: Option<CodexAppLaunchTarget>)
    ensures
        res == (if from_config is Some {
            from_config
        } else if from_env is Some {
            from_env
        } else {
            from_process
        }),
{
    if from_config.is_some() {
        from_config
    } else if from_env.is_some() {
        from_env
    } else {
        from_process
    }
}

/// Whether an override needs the locally installed app's launch target: its
/// path is not an existing file, but it names an app id.
pub fn override_needs_local(codex_override: &CodexAppOverride, path_is_file: bool) -> (res: bool)
    ensures
        res == ((codex_override.executable_path is None || !path_is_file)
            && codex_override.app_user_model_id is Some),
{
    (codex_override.executable_path.is_none() || !path_is_file)
        && codex_override.app_user_model_id.is_some()
}

/// The launch target of an override: its path where that is an existing
/// file, with its app id or else the one read for the path; otherwise,
/// where it names an app id, the locally installed app with that app's id
/// or else the override's; otherwise none. Its source is `override`.
pub fn override_launch_target(
    codex_override: &CodexAppOverride,
    path_is_file: bool,
    path_app_id: Option<String>,
    local: Option<CodexAppLaunchTarget>,
) -> (res: Option<CodexAppLaunchTarget>)
    ensures
        match codex_override.executable_path {
            Some(p) if path_is_file => res matches Some(t) && t.executable_path@ == p@
                && t.app_user_model_id == (if codex_override.app_user_model_id is Some {
                codex_override.app_user_model_id
            } else {
                path_app_id
            }) && t.source@ == "override"@,
            _ => if codex_override.app_user_model_id is None {
                res is None
            } else {
                match local {
                    None => res is None,
                    Some(l) => res matches Some(t) && t.executable_path == l.executable_path
                        && t.app_user_model_id == (if l.app_user_model_id is Some {
                        l.app_user_model_id
                    } else {
                        codex_override.app_user_model_id
                    }) && t.source@ == "override"@,
                }
            },
        },
{
    if path_is_file {
        if let Some(p) = &codex_override.executable_path {
            let app_id = if codex_override.app_user_model_id.is_some() {
                codex_override.app_user_model_id.clone()
            } else {
                path_app_id
            };
            return Some(
                CodexAppLaunchTarget { executable_path: p.clone(), app_user_model_id: app_id, source: owned("override") },
            );
        }
    }
    if codex_override.app_user_model_id.is_none() {
        return None;
    }
    match local {
        None => None,
        Some(l) => {
            let app_id = if l.app_user_model_id.is_some() {
                l.app_user_model_id
            } else {
                codex_override.app_user_model_id.clone()
            };
            Some(CodexAppLaunchTarget { executable_path: l.executable_path, app_user_model_id: app_id, source: owned("override") })
        },
    }
}

/// Where the Codex app was found: the launch target resolved from the
/// overrides and running processes where there is one, else the first
/// installed package that gives one, with the errors where the package
/// query failed or found none.
pub fn discovery_outcome(
    launch: Option<CodexAppLaunchTarget>,
    packages: Result<Option<CodexAppLaunchTarget>, String>,
) -> (res: Result<CodexAppDiscovery, String>)
    ensures
        match launch {
            Some(t) => res matches Ok(d) && d.executable_path == t.executable_path
                && d.app_user_model_id == t.app_user_model_id && d.source == t.source,
            None => match packages {
                Err(e) => res matches Err(m) && m@ == "failed to query installed Codex app ("@ + e@
                    + ")"@,
                Ok(None) => res matches Err(m) && m@ == "could not locate Codex app installation"@,
                Ok(Some(t)) => res matches Ok(d) && d.executable_path == t.executable_path
                    && d.app_user_model_id == t.app_user_model_id && d.source == t.source,
            },
        },
{
    match launch {
        Some(t) => Ok(CodexAppDiscovery { executable_path: t.executable_path, app_user_model_id: t.app_user_model_id, source: t.source }),
        None => match packages {
            Err(e) => Err(concat3("failed to query installed Codex app (", e.as_str(), ")")),
            Ok(None) => Err(owned("could not locate Codex app installation")),
            Ok(Some(t)) => Ok(CodexAppDiscovery { executable_path: t.executable_path, app_user_model_id: t.app_user_model_id, source: t.source }),
        },
    }
}

/// The answer to a Codex app discovery where the app's processes and
/// packages cannot be listed: an error that says so.
pub fn detect_codex_app_discovery(codex_override: Option<&CodexAppOverride>) -> (res: Result<
    CodexAppDiscovery,
    String,
>)
    ensures
        res matches Err(m) && m@ == "Codex app detection is only implemented for Windows in this build."@,
{
    Err(owned("Codex app detection is only implemented for Windows in this build."))
}

} // verus!
