//! Self-update checks: where the program was installed from, which command
//! updates it, and whether a newer release should be offered.
use vstd::prelude::*;

use crate::num::{parse_u64, parse_u64_seq};
use crate::text::{
    chars_of, concat3, is_prefix, is_suffix, owned, push_str, split_once_seq, str_eq, string_of,
    trim_seq,
};

verus! {

/// The command that updates the program.
#[derive(Debug, Clone, Copy, PartialEq, Eq, Structural)]
pub enum UpdateAction {
    /// `npm install -g codex-profiles`.
    NpmGlobalLatest,
    /// `bun install -g codex-profiles`.
    BunGlobalLatest,
    /// `brew upgrade codex-profiles`.
    BrewUpgrade,
}

/// How the program was installed.
#[derive(Debug, Clone, Copy, PartialEq, Eq, Structural)]
pub enum InstallSource {
    Npm,
    Bun,
    Brew,
    Unknown,
}

/// What to do once the update prompt is answered.
#[derive(Debug, Clone, Copy, PartialEq, Eq, Structural)]
pub enum UpdatePromptOutcome {
    Continue,
    RunUpdate(UpdateAction),
}

/// Where update state is kept and whether updates are checked at start.
#[derive(Clone, Debug)]
pub struct UpdateConfig {
    pub codex_home: String,
    pub check_for_update_on_startup: bool,
}

/// The saved state of update checks, with times in seconds since the epoch.
#[derive(Clone, Debug)]
pub struct VersionInfo {
    pub latest_version: String,
    pub last_checked_at: i64,
    pub dismissed_version: Option<String>,
    pub last_prompted_at: Option<i64>,
}

/// The program and arguments of an update command.
pub open spec fn action_words(a: UpdateAction) -> Seq<Seq<char>> {
    match a {
        UpdateAction::NpmGlobalLatest => seq!["npm"@, "install"@, "-g"@, "codex-profiles"@],
        UpdateAction::BunGlobalLatest => seq!["bun"@, "install"@, "-g"@, "codex-profiles"@],
        UpdateAction::BrewUpgrade => seq!["brew"@, "upgrade"@, "codex-profiles"@],
    }
}

/// Words joined by single spaces.
pub open spec fn join_words(ws: Seq<Seq<char>>) -> Seq<char>
    decreases ws.len(),
{
    if ws.len() == 0 {
        Seq::empty()
    } else if ws.len() == 1 {
        ws[0]
    } else {
        join_words(ws.drop_last()) + seq![' '] + ws.last()
    }
}

/// Whether `shlex` leaves a character unquoted.
pub open spec fn shell_plain_char(c: char) -> bool {
    c == '+' || c == '-' || c == '.' || c == '/' || c == ':' || c == '@' || c == ']' || c == '_'
        || ('0' <= c && c <= '9') || ('A' <= c && c <= 'Z') || ('a' <= c && c <= 'z')
}

/// Whether `shlex` leaves a word unquoted: it is not empty and every
/// character is plain.
pub open spec fn shell_plain_word(w: Seq<char>) -> bool {
    w.len() > 0 && forall|i: int| 0 <= i < w.len() ==> shell_plain_char(#[trigger] w[i])
}

/// What `shlex::try_join` returns for a list of words.
pub uninterp spec fn shlex_join(words: Seq<Seq<char>>) -> Option<Seq<char>>;

/// Calls `shlex::try_join`. Trusted: the result is the name `shlex_join` of
/// the words; it fails only where a word holds a nul character (the only
/// error the documentation names); and words that need no quoting (as
/// `shlex`'s `unquoted_ok` shows) are joined by single spaces unchanged.
#[verifier::external_body]
fn try_join(words: &[&str]) -> (res: Option<String>)
    ensures
        opt_view(res) == shlex_join(strs_of(words@)),
        res is None ==> exists|i: int| 0 <= i < words.len() && (#[trigger] words@[i])@.contains('\0'),
        (forall|i: int| 0 <= i < words.len() ==> shell_plain_word(#[trigger] words@[i]@)) ==> res
            is Some && res.unwrap()@ == join_words(strs_of(words@)),
{
    shlex::try_join(words.iter().copied()).ok()
}

/// String slices as texts.
pub open spec fn strs_of(ws: Seq<&str>) -> Seq<Seq<char>> {
    Seq::new(ws.len(), |i: int| ws[i]@)
}

/// An optional string as text.
pub open spec fn opt_view(o: Option<String>) -> Option<Seq<char>> {
    match o {
        Some(s) => Some(s@),
        None => None,
    }
}

impl UpdateAction {
    /// The program and arguments that perform the update.
    pub fn command_args(self) -> (res: (&'static str, Vec<&'static str>))
        ensures
            seq![res.0@] + strs_of(res.1@) == action_words(self),
    {
        let (cmd, args): (&'static str, Vec<&'static str>) = match self {
            UpdateAction::NpmGlobalLatest => ("npm", vec!["install", "-g", "codex-profiles"]),
            UpdateAction::BunGlobalLatest => ("bun", vec!["install", "-g", "codex-profiles"]),
            UpdateAction::BrewUpgrade => ("brew", vec!["upgrade", "codex-profiles"]),
        };
        assert(seq![cmd@] + strs_of(args@) =~= action_words(self));
        (cmd, args)
    }

    /// The update command as one line of shell.
    pub fn command_str(self) -> (res: String)
        ensures
            res@ == join_words(action_words(self)),
    {
        let (cmd, args) = self.command_args();
        let mut words: Vec<&str> = Vec::new();
        words.push(cmd);
        let mut i: usize = 0;
        while i < args.len()
            invariant
                i <= args.len(),
                strs_of(words@) == seq![cmd@] + strs_of(args@).take(i as int),
            decreases args.len() - i,
        {
            let ghost before = words@;
            let w = args[i];
            words.push(w);
            assert(words@ == before.push(w));
            assert(strs_of(words@) =~= strs_of(before).push(w@));
            assert(strs_of(args@).take(i + 1) =~= strs_of(args@).take(i as int).push(w@));
            i = i + 1;
        }
        assert(strs_of(args@).take(args.len() as int) =~= strs_of(args@));
        proof {
            lemma_action_words_plain(self);
            let ws = strs_of(words@);
            assert(ws == action_words(self));
            assert forall|k: int| 0 <= k < words.len() implies shell_plain_word(
                #[trigger] words@[k]@,
            ) by {
                assert(words@[k]@ == ws[k]);
            }
        }
        match try_join(words.as_slice()) {
            Some(s) => s,
            None => owned(cmd),
        }
    }
}

proof fn lemma_action_words_plain(a: UpdateAction)
    ensures
        forall|k: int| 0 <= k < action_words(a).len() ==> shell_plain_word(
            #[trigger] action_words(a)[k],
        ),
{
    reveal_strlit("npm");
    reveal_strlit("bun");
    reveal_strlit("brew");
    reveal_strlit("install");
    reveal_strlit("-g");
    reveal_strlit("upgrade");
    reveal_strlit("codex-profiles");
    assert(shell_plain_word("npm"@));
    assert(shell_plain_word("bun"@));
    assert(shell_plain_word("brew"@));
    assert(shell_plain_word("install"@));
    assert(shell_plain_word("-g"@));
    assert(shell_plain_word("upgrade"@));
    assert(shell_plain_word("codex-profiles"@));
}

// ---------------------------------------------------------------------------
// Paths
// ---------------------------------------------------------------------------

/// The segment after the last `/`.
pub open spec fn open_segment(s: Seq<char>) -> Seq<char>
    decreases s.len(),
{
    if s.len() == 0 {
        Seq::empty()
    } else if s.last() == '/' {
        Seq::empty()
    } else {
        open_segment(s.drop_last()).push(s.last())
    }
}

/// Adds a segment to the parts of a path unless it is empty or `.`.
pub open spec fn keep_segment(parts: Seq<Seq<char>>, seg: Seq<char>) -> Seq<Seq<char>> {
    if seg.len() == 0 || seg == seq!['.'] {
        parts
    } else {
        parts.push(seg)
    }
}

/// The kept segments that a `/` has closed.
pub open spec fn closed_segments(s: Seq<char>) -> Seq<Seq<char>>
    decreases s.len(),
{
    if s.len() == 0 {
        Seq::empty()
    } else if s.last() == '/' {
        keep_segment(closed_segments(s.drop_last()), open_segment(s.drop_last()))
    } else {
        closed_segments(s.drop_last())
    }
}

/// The segments of a path between `/`, without empty ones and `.`.
pub open spec fn path_parts(s: Seq<char>) -> Seq<Seq<char>> {
    keep_segment(closed_segments(s), open_segment(s))
}

/// The components of a Unix path as `Path::components` documents them: the
/// root `/` first for an absolute path, `.` first for a path that starts with
/// it, then the segments, with repeated separators and other `.` segments
/// ignored.
pub open spec fn path_components(p: Seq<char>) -> Seq<Seq<char>> {
    if p.len() > 0 && p[0] == '/' {
        seq![seq!['/']] + path_parts(p.skip(1))
    } else if p == seq!['.'] || is_prefix(seq!['.', '/'], p) {
        seq![seq!['.']] + path_parts(p.skip(1))
    } else {
        path_parts(p)
    }
}

/// Whether one list of components begins another.
pub open spec fn parts_prefix(a: Seq<Seq<char>>, b: Seq<Seq<char>>) -> bool {
    a.len() <= b.len() && b.take(a.len() as int) == a
}

/// `Path::starts_with`: the components of `base` begin the path's.
pub open spec fn path_starts_with(p: Seq<char>, base: Seq<char>) -> bool {
    parts_prefix(path_components(base), path_components(p))
}

/// `Path::file_name`: the last component where it is a name (not the root,
/// `.` or `..`).
pub open spec fn path_file_name(p: Seq<char>) -> Option<Seq<char>> {
    let c = path_components(p);
    if c.len() == 0 {
        None
    } else {
        let last = c.last();
        if last == seq!['/'] || last == seq!['.'] || last == seq!['.', '.'] {
            None
        } else {
            Some(last)
        }
    }
}

fn keep_segment_exec(parts: &mut Vec<Vec<char>>, seg: Vec<char>)
    ensures
        vv(final(parts)@) == keep_segment(vv(old(parts)@), seg@),
{
    if seg.len() == 0 || (seg.len() == 1 && seg[0] == '.') {
        assert(seg@.len() == 0 || seg@ =~= seq!['.']);
        return;
    }
    assert(seg@ != seq!['.']);
    let ghost before = vv(parts@);
    parts.push(seg);
    assert(vv(parts@) =~= before.push(seg@));
}

/// Character vectors as texts.
pub open spec fn vv(v: Seq<Vec<char>>) -> Seq<Seq<char>> {
    Seq::new(v.len(), |i: int| v[i]@)
}

fn parts_of(s: &[char]) -> (res: Vec<Vec<char>>)
    ensures
        vv(res@) == path_parts(s@),
{
    let mut parts: Vec<Vec<char>> = Vec::new();
    let mut seg: Vec<char> = Vec::new();
    let mut i: usize = 0;
    assert(vv(parts@) =~= Seq::<Seq<char>>::empty());
    while i < s.len()
        invariant
            i <= s.len(),
            vv(parts@) == closed_segments(s@.take(i as int)),
            seg@ == open_segment(s@.take(i as int)),
        decreases s.len() - i,
    {
        assert(s@.take(i + 1).drop_last() =~= s@.take(i as int));
        if s[i] == '/' {
            let done = seg;
            seg = Vec::new();
            keep_segment_exec(&mut parts, done);
        } else {
            seg.push(s[i]);
        }
        i = i + 1;
    }
    assert(s@.take(s.len() as int) =~= s@);
    keep_segment_exec(&mut parts, seg);
    parts
}

fn prepend(head: Vec<char>, parts: Vec<Vec<char>>) -> (res: Vec<Vec<char>>)
    ensures
        vv(res@) == seq![head@] + vv(parts@),
{
    let mut parts = parts;
    let ghost old_parts = vv(parts@);
    let ghost h = head@;
    parts.insert(0, head);
    assert(vv(parts@) =~= seq![h] + old_parts);
    parts
}

/// The components of a Unix path.
pub fn components(p: &str) -> (res: Vec<Vec<char>>)
    ensures
        vv(res@) == path_components(p@),
{
    let v = chars_of(p);
    if v.len() > 0 && v[0] == '/' {
        let rest = crate::text::slice_range(&v, 1, v.len());
        assert(rest@ =~= p@.skip(1));
        let parts = parts_of(&rest);
        let root = vec!['/'];
        assert(root@ =~= seq!['/']);
        return prepend(root, parts);
    }
    let dot = v.len() > 0 && v[0] == '.' && (v.len() == 1 || v[1] == '/');
    proof {
        if dot {
            if v.len() == 1 {
                assert(p@ =~= seq!['.']);
            } else {
                assert(p@.take(2) =~= seq!['.', '/']);
            }
        } else {
            if p@ == seq!['.'] {
                assert(v@.len() == 1 && v@[0] == '.');
            }
            if is_prefix(seq!['.', '/'], p@) {
                assert(p@.take(2)[0] == '.' && p@.take(2)[1] == '/');
            }
        }
    }
    if dot {
        let rest = crate::text::slice_range(&v, 1, v.len());
        assert(rest@ =~= p@.skip(1));
        let parts = parts_of(&rest);
        let cur = vec!['.'];
        assert(cur@ =~= seq!['.']);
        return prepend(cur, parts);
    }
    parts_of(&v)
}

/// `Path::file_name` of a Unix path: its last component, where that is a
/// name.
pub fn file_name(p: &str) -> (res: Option<String>)
    ensures
        match res {
            Some(n) => path_file_name(p@) == Some(n@),
            None => path_file_name(p@) is None,
        },
{
    let c = components(p);
    if c.len() == 0 {
        return None;
    }
    let last = &c[c.len() - 1];
    let ghost lv = vv(c@).last();
    assert(last@ == lv);
    let root = vec!['/'];
    let cur = vec!['.'];
    let up = vec!['.', '.'];
    assert(root@ =~= seq!['/']);
    assert(cur@ =~= seq!['.']);
    assert(up@ =~= seq!['.', '.']);
    if crate::text::chars_eq(last, &root) || crate::text::chars_eq(last, &cur)
        || crate::text::chars_eq(last, &up) {
        return None;
    }
    Some(crate::text::string_of(last))
}

fn components_start_with(p: &Vec<Vec<char>>, base: &Vec<Vec<char>>) -> (res: bool)
    ensures
        res == parts_prefix(vv(base@), vv(p@)),
{
    if base.len() > p.len() {
        return false;
    }
    let mut i: usize = 0;
    while i < base.len()
        invariant
            i <= base.len() <= p.len(),
            forall|j: int| 0 <= j < i ==> base@[j]@ == p@[j]@,
        decreases base.len() - i,
    {
        if !crate::text::chars_eq(&base[i], &p[i]) {
            assert(vv(p@).take(base.len() as int)[i as int] != vv(base@)[i as int]);
            return false;
        }
        i = i + 1;
    }
    assert(vv(p@).take(base.len() as int) =~= vv(base@));
    true
}

/// Whether the executable lies under a Homebrew prefix (`/opt/homebrew` or
/// `/usr/local`) and is named `codex-profiles`.
pub open spec fn is_brew_path(exe: Seq<char>) -> bool {
    (path_starts_with(exe, "/opt/homebrew"@) || path_starts_with(exe, "/usr/local"@))
        && path_file_name(exe) == Some("codex-profiles"@)
}

fn is_brew_install(current_exe: &str) -> (res: bool)
    ensures
        res == is_brew_path(current_exe@),
{
    let c = components(current_exe);
    let opt = components("/opt/homebrew");
    let usr = components("/usr/local");
    let under = components_start_with(&c, &opt) || components_start_with(&c, &usr);
    if !under {
        return false;
    }
    if c.len() == 0 {
        return false;
    }
    let last = &c[c.len() - 1];
    let ghost lv = vv(c@).last();
    assert(last@ == lv);
    let root = vec!['/'];
    let cur = vec!['.'];
    let up = vec!['.', '.'];
    assert(root@ =~= seq!['/']);
    assert(cur@ =~= seq!['.']);
    assert(up@ =~= seq!['.', '.']);
    let is_name = !(crate::text::chars_eq(last, &root) || crate::text::chars_eq(last, &cur)
        || crate::text::chars_eq(last, &up));
    let name = chars_of("codex-profiles");
    let same = crate::text::chars_eq(last, &name);
    assert(is_name ==> path_file_name(current_exe@) == Some(lv));
    assert(!is_name ==> path_file_name(current_exe@) is None);
    is_name && same
}

/// The install source of the program: npm or bun where their launchers say
/// so, Homebrew for a macOS executable under a Homebrew prefix, else unknown.
pub fn detect_install_source_inner(
    is_macos: bool,
    current_exe: &str,
    managed_by_npm: bool,
    managed_by_bun: bool,
) -> (res: InstallSource)
    ensures
        res == (if managed_by_npm {
            InstallSource::Npm
        } else if managed_by_bun {
            InstallSource::Bun
        } else if is_macos && is_brew_path(current_exe@) {
            InstallSource::Brew
        } else {
            InstallSource::Unknown
        }),
{
    if managed_by_npm {
        InstallSource::Npm
    } else if managed_by_bun {
        InstallSource::Bun
    } else if is_macos && is_brew_install(current_exe) {
        InstallSource::Brew
    } else {
        InstallSource::Unknown
    }
}

/// The update command for an install source; none in a debug build or for an
/// unknown source.
pub fn get_update_action_with_debug(is_debug: bool, install_source: InstallSource) -> (res: Option<
    UpdateAction,
>)
    ensures
        res == (if is_debug {
            None
        } else {
            match install_source {
                InstallSource::Npm => Some(UpdateAction::NpmGlobalLatest),
                InstallSource::Bun => Some(UpdateAction::BunGlobalLatest),
                InstallSource::Brew => Some(UpdateAction::BrewUpgrade),
                InstallSource::Unknown => None,
            }
        }),
{
    if is_debug {
        return None;
    }
    match install_source {
        InstallSource::Npm => Some(UpdateAction::NpmGlobalLatest),
        InstallSource::Bun => Some(UpdateAction::BunGlobalLatest),
        InstallSource::Brew => Some(UpdateAction::BrewUpgrade),
        InstallSource::Unknown => None,
    }
}

// ---------------------------------------------------------------------------
// Versions
// ---------------------------------------------------------------------------

/// The first three `.`-separated parts of a trimmed version text; `None`
/// where it has fewer than three.
pub open spec fn version_parts(v: Seq<char>) -> Option<(Seq<char>, Seq<char>, Seq<char>)> {
    match split_once_seq(trim_seq(v), '.') {
        None => None,
        Some((a, r)) => match split_once_seq(r, '.') {
            None => None,
            Some((b, r2)) => Some(
                (
                    a,
                    b,
                    match split_once_seq(r2, '.') {
                        Some((c, _rest)) => c,
                        None => r2,
                    },
                ),
            ),
        },
    }
}

/// A version `major.minor.patch` as three numbers; any later parts are
/// ignored.
pub open spec fn parsed_version(v: Seq<char>) -> Option<(u64, u64, u64)> {
    match version_parts(v) {
        None => None,
        Some((a, b, c)) => match (parse_u64_seq(a), parse_u64_seq(b), parse_u64_seq(c)) {
            (Some(x), Some(y), Some(z)) => Some((x, y, z)),
            _ => None,
        },
    }
}

/// Whether version `a` is later than `b`.
pub open spec fn version_gt(a: (u64, u64, u64), b: (u64, u64, u64)) -> bool {
    a.0 > b.0 || (a.0 == b.0 && (a.1 > b.1 || (a.1 == b.1 && a.2 > b.2)))
}

/// Later-than on versions is a strict total order: never between a
/// version and itself, never both ways, transitive, and between any two
/// different versions one way or the other.
pub proof fn lemma_version_order(a: (u64, u64, u64), b: (u64, u64, u64), c: (u64, u64, u64))
    ensures
        !version_gt(a, a),
        version_gt(a, b) ==> !version_gt(b, a),
        version_gt(a, b) && version_gt(b, c) ==> version_gt(a, c),
        a != b ==> version_gt(a, b) || version_gt(b, a),
{
}

/// Later-than on versions compares the major, then the minor, then the
/// patch number: a greater part decides where the parts before it are
/// equal.
pub proof fn lemma_version_parts_decide(a: (u64, u64, u64), b: (u64, u64, u64))
    ensures
        a.0 > b.0 ==> version_gt(a, b),
        a.0 == b.0 && a.1 > b.1 ==> version_gt(a, b),
        a.0 == b.0 && a.1 == b.1 && a.2 > b.2 ==> version_gt(a, b),
        a.0 == b.0 && a.1 == b.1 && a.2 <= b.2 ==> !version_gt(a, b),
{
}

/// Parses a version `major.minor.patch`.
pub fn parse_version(v: &str) -> (res: Option<(u64, u64, u64)>)
    ensures
        res == parsed_version(v@),
{
    let t = crate::text::trim_chars(&chars_of(v));
    let (a, r) = match crate::text::split_once_chars(&t, '.') {
        Some(x) => x,
        None => return None,
    };
    let (b, r2) = match crate::text::split_once_chars(&r, '.') {
        Some(x) => x,
        None => return None,
    };
    let c = match crate::text::split_once_chars(&r2, '.') {
        Some((c, _rest)) => c,
        None => r2,
    };
    let maj = match crate::num::parse_u64_chars(&a) {
        Some(x) => x,
        None => return None,
    };
    let min = match crate::num::parse_u64_chars(&b) {
        Some(x) => x,
        None => return None,
    };
    let pat = match crate::num::parse_u64_chars(&c) {
        Some(x) => x,
        None => return None,
    };
    Some((maj, min, pat))
}

/// Whether `latest` is a later version than `current`; `None` where either
/// does not parse.
pub fn is_newer(latest: &str, current: &str) -> (res: Option<bool>)
    ensures
        res == (match (parsed_version(latest@), parsed_version(current@)) {
            (Some(l), Some(c)) => Some(version_gt(l, c)),
            _ => None,
        }),
        match (parsed_version(latest@), parsed_version(current@)) {
            (Some(l), Some(c)) => {
                &&& l.0 != c.0 ==> res == Some(l.0 > c.0)
                &&& l.0 == c.0 && l.1 != c.1 ==> res == Some(l.1 > c.1)
                &&& l.0 == c.0 && l.1 == c.1 ==> res == Some(l.2 > c.2)
            },
            _ => res is None,
        },
{
    match (parse_version(latest), parse_version(current)) {
        (Some(l), Some(c)) => Some(l.0 > c.0 || (l.0 == c.0 && (l.1 > c.1 || (l.1 == c.1 && l.2
            > c.2)))),
        _ => None,
    }
}

/// The version that a line of a Homebrew cask declares: the text between
/// `version "` and a final `"` of the trimmed line.
pub open spec fn cask_line_version(line: Seq<char>) -> Option<Seq<char>> {
    let t = trim_seq(line);
    let p = "version \""@;
    if is_prefix(p, t) {
        let rest = t.skip(p.len() as int);
        if rest.len() > 0 && rest.last() == '"' {
            Some(rest.drop_last())
        } else {
            None
        }
    } else {
        None
    }
}

/// The version of the first line that declares one.
pub open spec fn first_cask_version(lines: Seq<Seq<char>>) -> Option<Seq<char>>
    decreases lines.len(),
{
    if lines.len() == 0 {
        None
    } else {
        match cask_line_version(lines[0]) {
            Some(v) => Some(v),
            None => first_cask_version(lines.drop_first()),
        }
    }
}

fn cask_line_version_exec(line: &[char]) -> (res: Option<String>)
    ensures
        opt_view(res) == cask_line_version(line@),
{
    let t = crate::text::trim_chars(line);
    let p = chars_of("version \"");
    if !crate::text::starts_with(&t, &p) {
        return None;
    }
    let rest = crate::text::slice_range(&t, p.len(), t.len());
    assert(rest@ =~= t@.skip(p@.len() as int));
    if rest.len() > 0 && rest[rest.len() - 1] == '"' {
        let v = crate::text::slice_range(&rest, 0, rest.len() - 1);
        assert(v@ =~= rest@.drop_last());
        Some(string_of(&v))
    } else {
        None
    }
}

/// The version declared in a Homebrew cask file: that of its first line of
/// the form `version "..."`.
pub fn extract_version_from_cask(cask_contents: &str) -> (res: Result<String, String>)
    ensures
        match first_cask_version(crate::ui::lines_of(cask_contents@)) {
            Some(v) => res matches Ok(s) && s@ == v,
            None => res matches Err(m) && m@ == "Failed to find version in Homebrew cask file"@,
        },
{
    let lines = lines_vec(cask_contents);
    let ghost all = vv(lines@);
    let mut i: usize = 0;
    assert(all.skip(0) =~= all);
    while i < lines.len()
        invariant
            i <= lines.len(),
            all == vv(lines@),
            all == crate::ui::lines_of(cask_contents@),
            first_cask_version(all) == first_cask_version(all.skip(i as int)),
        decreases lines.len() - i,
    {
        assert(all.skip(i as int).drop_first() =~= all.skip(i + 1));
        assert(all.skip(i as int)[0] == lines@[i as int]@);
        match cask_line_version_exec(&lines[i]) {
            Some(v) => return Ok(v),
            None => {},
        }
        i = i + 1;
    }
    Err(owned("Failed to find version in Homebrew cask file"))
}

/// The lines of a text, as `str::lines` yields them.
pub(crate) fn lines_vec(s: &str) -> (res: Vec<Vec<char>>)
    ensures
        vv(res@) == crate::ui::lines_of(s@),
{
    let v = chars_of(s);
    let mut out: Vec<Vec<char>> = Vec::new();
    let mut start: usize = 0;
    assert(v@.skip(0) =~= v@);
    while start < v.len()
        invariant
            start <= v.len(),
            v@ == s@,
            vv(out@) + crate::ui::lines_of(v@.skip(start as int)) == crate::ui::lines_of(v@),
        decreases v.len() - start,
    {
        let rest = crate::text::slice_range(&v, start, v.len());
        assert(rest@ =~= v@.skip(start as int));
        let (line_end, next) = match crate::text::position_of(&rest, '\n') {
            Some(k) => {
                proof {
                    crate::text::lemma_index_of_first(rest@, '\n', k as int);
                }
                (start + k, start + k + 1)
            },
            None => (v.len(), v.len()),
        };
        let mut line = crate::text::slice_range(&v, start, line_end);
        let ghost raw = line@;
        if line.len() > 0 && line[line.len() - 1] == '\r' {
            line.pop();
        }
        assert(line@ =~= crate::ui::strip_cr(raw));
        proof {
            crate::ui::lemma_lines_step(v@, start as int, line_end as int, next as int, raw, line@, vv(out@));
        }
        let ghost before = vv(out@);
        out.push(line);
        assert(vv(out@) =~= before.push(raw_strip(raw)));
        start = next;
    }
    proof {
        crate::ui::lemma_lines_unfold(seq![' ']);
        assert(v@.skip(start as int) =~= Seq::<char>::empty());
        assert(vv(out@) =~= crate::ui::lines_of(v@));
    }
    out
}

/// A line without its trailing carriage return.
pub open spec fn raw_strip(l: Seq<char>) -> Seq<char> {
    crate::ui::strip_cr(l)
}

/// The version named by a release tag `v{version}` or `rust-v{version}`.
pub fn extract_version_from_latest_tag(latest_tag_name: &str) -> (res: Result<String, String>)
    ensures
        if is_prefix("v"@, latest_tag_name@) {
            res matches Ok(v) && v@ == latest_tag_name@.skip(1)
        } else if is_prefix("rust-v"@, latest_tag_name@) {
            res matches Ok(v) && v@ == latest_tag_name@.skip(6)
        } else {
            res matches Err(m) && m@ == "Failed to parse latest tag name '"@ + latest_tag_name@ + "'"@
        },
{
    let t = chars_of(latest_tag_name);
    let v = chars_of("v");
    let rv = chars_of("rust-v");
    proof {
        reveal_strlit("v");
        reveal_strlit("rust-v");
    }
    if crate::text::starts_with(&t, &v) {
        let rest = crate::text::slice_range(&t, 1, t.len());
        assert(rest@ =~= latest_tag_name@.skip(1));
        return Ok(string_of(&rest));
    }
    if crate::text::starts_with(&t, &rv) {
        let rest = crate::text::slice_range(&t, 6, t.len());
        assert(rest@ =~= latest_tag_name@.skip(6));
        return Ok(string_of(&rest));
    }
    Err(concat3("Failed to parse latest tag name '", latest_tag_name, "'"))
}

// ---------------------------------------------------------------------------
// When to check and when to prompt
// ---------------------------------------------------------------------------

/// Whether update checks are off: in a debug build or by configuration.
pub fn updates_disabled_with_debug(config: &UpdateConfig, is_debug: bool) -> (res: bool)
    ensures
        res == (is_debug || !config.check_for_update_on_startup),
{
    is_debug || !config.check_for_update_on_startup
}

/// The seconds in an hour.
pub open spec fn hour() -> int {
    3600
}

/// Whether the latest release is looked up again: when nothing was saved, or
/// the last check is more than twenty hours old.
pub fn should_check_for_update(info: Option<&VersionInfo>, now: i64) -> (res: bool)
    ensures
        res == (match info {
            None => true,
            Some(i) => (i.last_checked_at as int) < now - 20 * hour(),
        }),
{
    match info {
        None => true,
        Some(i) => (i.last_checked_at as i128) < (now as i128) - 72000,
    }
}

/// The release to offer: the saved latest version where it is newer than the
/// running one; none where checks are off.
pub fn get_upgrade_version(
    config: &UpdateConfig,
    is_debug: bool,
    info: Option<&VersionInfo>,
    current: &str,
) -> (res: Option<String>)
    ensures
        (is_debug || !config.check_for_update_on_startup) ==> res is None,
        !(is_debug || !config.check_for_update_on_startup) ==> match info {
            None => res is None,
            Some(i) => match (parsed_version(i.latest_version@), parsed_version(current@)) {
                (Some(l), Some(c)) => if version_gt(l, c) {
                    res matches Some(v) && v@ == i.latest_version@
                } else {
                    res is None
                },
                _ => res is None,
            },
        },
{
    if updates_disabled_with_debug(config, is_debug) {
        return None;
    }
    match info {
        None => None,
        Some(i) => match is_newer(i.latest_version.as_str(), current) {
            Some(true) => Some(i.latest_version.clone()),
            _ => None,
        },
    }
}

/// Whether the popup for a release is shown: not within a day of the last
/// prompt, and not for a version the user dismissed.
pub open spec fn popup_allowed(info: Option<VersionInfo>, latest: Seq<char>, now: int) -> bool {
    match info {
        None => true,
        Some(i) => !(i.last_prompted_at matches Some(t) && t > now - 24 * hour()) && !(
        i.dismissed_version matches Some(d) && d@ == latest),
    }
}

/// The release to show in the update popup, and the saved state to write
/// back (with the prompt time set) where there is one.
pub fn get_upgrade_version_for_popup(
    config: &UpdateConfig,
    is_debug: bool,
    latest: Option<String>,
    info: Option<VersionInfo>,
    now: i64,
) -> (res: (Option<String>, Option<VersionInfo>))
    ensures
        (is_debug || !config.check_for_update_on_startup || latest is None) ==> res.0 is None
            && res.1 is None,
        !(is_debug || !config.check_for_update_on_startup) ==> (latest matches Some(l) ==> {
            if popup_allowed(info, l@, now as int) {
                &&& res.0 == latest
                &&& match info {
                    None => res.1 is None,
                    Some(i) => res.1 matches Some(n) && n.latest_version == i.latest_version
                        && n.last_checked_at == i.last_checked_at && n.dismissed_version
                        == i.dismissed_version && n.last_prompted_at == Some(now),
                }
            } else {
                res.0 is None && res.1 is None
            }
        }),
{
    if updates_disabled_with_debug(config, is_debug) {
        return (None, None);
    }
    let latest = match latest {
        Some(l) => l,
        None => return (None, None),
    };
    match info {
        None => (Some(latest), None),
        Some(i) => {
            let recent = match i.last_prompted_at {
                Some(t) => (t as i128) > (now as i128) - 86400,
                None => false,
            };
            if recent {
                return (None, None);
            }
            let dismissed = match &i.dismissed_version {
                Some(d) => str_eq(d.as_str(), latest.as_str()),
                None => false,
            };
            if dismissed {
                return (None, None);
            }
            let updated = VersionInfo {
                latest_version: i.latest_version,
                last_checked_at: i.last_checked_at,
                dismissed_version: i.dismissed_version,
                last_prompted_at: Some(now),
            };
            (Some(latest), Some(updated))
        },
    }
}

/// "Skip until next version": once a version is dismissed, the popup never
/// offers that version again, at any time.
pub proof fn lemma_dismissed_version_stays_hidden(n: VersionInfo, v: Seq<char>, t: int)
    requires
        opt_view(n.dismissed_version) == Some(v),
    ensures
        !popup_allowed(Some(n), v, t),
{
}

/// The saved state after the user dismissed a version: that version marked
/// dismissed and the prompt time set; nothing to write where checks are off
/// or nothing was saved.
pub fn dismiss_version(
    config: &UpdateConfig,
    is_debug: bool,
    info: Option<VersionInfo>,
    version: &str,
    now: i64,
) -> (res: Option<VersionInfo>)
    ensures
        (is_debug || !config.check_for_update_on_startup || info is None) ==> res is None,
        !(is_debug || !config.check_for_update_on_startup) ==> match info {
            None => res is None,
            Some(i) => res matches Some(n) && n.latest_version == i.latest_version
                && n.last_checked_at == i.last_checked_at && opt_view(n.dismissed_version) == Some(
                version@,
            ) && n.last_prompted_at == Some(now),
        },
{
    if updates_disabled_with_debug(config, is_debug) {
        return None;
    }
    match info {
        None => None,
        Some(i) => Some(
            VersionInfo {
                latest_version: i.latest_version,
                last_checked_at: i.last_checked_at,
                dismissed_version: Some(owned(version)),
                last_prompted_at: Some(now),
            },
        ),
    }
}

/// The state saved after looking up the latest release: the version found
/// (or the running one where none was), the check time, and the earlier
/// dismissal and prompt time.
pub fn next_version_info(
    latest: Option<String>,
    current: &str,
    prev: Option<&VersionInfo>,
    now: i64,
) -> (res: VersionInfo)
    ensures
        res.latest_version@ == (match latest {
            Some(l) => l@,
            None => current@,
        }),
        res.last_checked_at == now,
        res.dismissed_version == (match prev {
            Some(p) => p.dismissed_version,
            None => None,
        }),
        res.last_prompted_at == (match prev {
            Some(p) => p.last_prompted_at,
            None => None,
        }),
{
    let dismissed = match prev {
        Some(p) => match &p.dismissed_version {
            Some(d) => Some(d.clone()),
            None => None,
        },
        None => None,
    };
    let prompted = match prev {
        Some(p) => p.last_prompted_at,
        None => None,
    };
    VersionInfo {
        latest_version: match latest {
            Some(l) => l,
            None => owned(current),
        },
        last_checked_at: now,
        dismissed_version: dismissed,
        last_prompted_at: prompted,
    }
}

/// Whether the Homebrew cask is asked before the release list.
pub fn cask_first(update_action: Option<UpdateAction>) -> (res: bool)
    ensures
        res == (update_action == Some(UpdateAction::BrewUpgrade)),
{
    match update_action {
        Some(UpdateAction::BrewUpgrade) => true,
        _ => false,
    }
}

/// What the answer to the update prompt leads to: `1` runs the update, `3`
/// continues and dismisses the version, anything else continues.
pub fn update_prompt_outcome(selection: &str, action: UpdateAction) -> (res: (
    UpdatePromptOutcome,
    bool,
))
    ensures
        trim_seq(selection@) == "1"@ ==> res == (UpdatePromptOutcome::RunUpdate(action), false),
        trim_seq(selection@) == "3"@ ==> res == (UpdatePromptOutcome::Continue, true),
        trim_seq(selection@) != "1"@ && trim_seq(selection@) != "3"@ ==> res == (
            UpdatePromptOutcome::Continue,
            false,
        ),
{
    let t = crate::text::trim_str(selection);
    proof {
        reveal_strlit("1");
        reveal_strlit("3");
        assert("1"@[0] != "3"@[0]);
        assert("1"@ != "3"@);
    }
    if str_eq(t.as_str(), "1") {
        (UpdatePromptOutcome::RunUpdate(action), false)
    } else if str_eq(t.as_str(), "3") {
        (UpdatePromptOutcome::Continue, true)
    } else {
        (UpdatePromptOutcome::Continue, false)
    }
}

/// The address of the release notes.
pub const RELEASE_NOTES_URL: &'static str = "https://github.com/midhunmonachan/codex-profiles/releases/latest";

/// The text of the update prompt: two lines without a terminal; with one,
/// the release notes and the three choices, ending in the question.
pub fn update_prompt_text(is_tty: bool, current: &str, latest: &str, action: UpdateAction) -> (res:
    String)
    ensures
        !is_tty ==> res@ == "Update available! "@ + current@ + " -> "@ + latest@ + "\nRun `"@
            + join_words(action_words(action)) + "` to update.\n"@,
        is_tty ==> res@ == "\n✨ Update available! "@ + current@ + " -> "@ + latest@
            + "\nRelease notes: "@ + RELEASE_NOTES_URL@ + "\n\n1) Update now (runs `"@
            + join_words(action_words(action)) + "`)\n2) Skip\n3) Skip until next version\nSelect [1-3]: "@,
{
    let cmd = action.command_str();
    let mut out = if is_tty {
        owned("\n✨ Update available! ")
    } else {
        owned("Update available! ")
    };
    push_str(&mut out, current);
    push_str(&mut out, " -> ");
    push_str(&mut out, latest);
    if !is_tty {
        push_str(&mut out, "\nRun `");
        push_str(&mut out, cmd.as_str());
        push_str(&mut out, "` to update.\n");
        return out;
    }
    push_str(&mut out, "\nRelease notes: ");
    push_str(&mut out, RELEASE_NOTES_URL);
    push_str(&mut out, "\n\n1) Update now (runs `");
    push_str(&mut out, cmd.as_str());
    push_str(&mut out, "`)\n2) Skip\n3) Skip until next version\nSelect [1-3]: ");
    out
}

} // verus!
