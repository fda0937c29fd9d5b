//! Terminal text: commands, hints, warnings, errors and profile badges.
//!
//! Plain mode (for scripts) and colour are decided by the caller; the text
//! that is shown without colour is stated exactly, and coloured text is the
//! same text wrapped in the terminal's style sequences.
use colored::Colorize;
use vstd::prelude::*;

use crate::text::{
    chars_of, concat, concat3, contains, contains_seq, eq_ignore_case, is_prefix, is_suffix, owned,
    push_chars, push_str, replace_seq, replace_str, str_eq_ignore_case, string_of,
};

verus! {

/// The message shown when a prompt is cancelled.
pub const CANCELLED_MESSAGE: &'static str = "Cancelled.";

/// How text is styled on a colour terminal.
#[derive(Clone, Copy, Debug, PartialEq, Eq)]
pub enum Paint {
    YellowBold,
    GreenBold,
    YellowDimmedItalic,
    DimmedItalic,
    Italic,
    RedBoldBlink,
    Bold,
    CyanBold,
    RedBold,
    Dimmed,
}

/// How a badge is styled on a colour terminal.
#[derive(Clone, Copy, Debug, PartialEq, Eq)]
pub enum BadgePaint {
    WhiteOnBrightRedBold,
    WhiteOnBrightGreenBold,
    WhiteOnBrightMagentaBold,
    WhiteOnBrightBlack,
    WhiteOnRed,
    WhiteOnGreen,
    WhiteOnMagenta,
}

/// The terminal's reset sequence, which ends every styled text.
pub open spec fn reset_seq() -> Seq<char> {
    seq!['\x1b', '[', '0', 'm']
}

/// The text with the style's escape prefix put again after each reset
/// sequence in it, so that the style continues after a styled part nested
/// in the text.
pub open spec fn escape_resets(text: Seq<char>, prefix: Seq<char>) -> Seq<char>
    decreases text.len(),
{
    if text.len() == 0 {
        Seq::empty()
    } else if text.len() >= 4 && text.take(4) == reset_seq() {
        reset_seq() + prefix + escape_resets(text.skip(4), prefix)
    } else {
        seq![text[0]] + escape_resets(text.drop_first(), prefix)
    }
}

/// Whether a text is an escape sequence that sets a style: `ESC [`, then
/// the codes, then `m`.
pub open spec fn style_code(p: Seq<char>) -> bool {
    p.len() >= 3 && p[0] == '\x1b' && p[1] == '[' && p.last() == 'm'
}

/// A text rendered in a style: unchanged where colouring is off, else
/// behind the style's prefix, with the prefix put again after each reset
/// inside it, and followed by the reset sequence.
pub open spec fn styled_as(res: Seq<char>, text: Seq<char>, prefix: Seq<char>) -> bool {
    res == text || res == prefix + escape_resets(text, prefix) + reset_seq()
}

/// A text rendered in some style.
pub open spec fn painted(res: Seq<char>, text: Seq<char>) -> bool {
    exists|p: Seq<char>| #![trigger styled_as(res, text, p)] style_code(p) && styled_as(res, text, p)
}

/// The escape prefix that `colored` writes for a style: the text styles
/// (bold `1`, dimmed `2`, italic `3`, blink `5`), the background, then the
/// foreground colour, joined by `;`.
pub open spec fn paint_prefix(p: Paint) -> Seq<char> {
    match p {
        Paint::YellowBold => seq!['\x1b', '[', '1', ';', '3', '3', 'm'],
        Paint::GreenBold => seq!['\x1b', '[', '1', ';', '3', '2', 'm'],
        Paint::YellowDimmedItalic => seq!['\x1b', '[', '2', ';', '3', ';', '3', '3', 'm'],
        Paint::DimmedItalic => seq!['\x1b', '[', '2', ';', '3', 'm'],
        Paint::Italic => seq!['\x1b', '[', '3', 'm'],
        Paint::RedBoldBlink => seq!['\x1b', '[', '1', ';', '5', ';', '3', '1', 'm'],
        Paint::Bold => seq!['\x1b', '[', '1', 'm'],
        Paint::CyanBold => seq!['\x1b', '[', '1', ';', '3', '6', 'm'],
        Paint::RedBold => seq!['\x1b', '[', '1', ';', '3', '1', 'm'],
        Paint::Dimmed => seq!['\x1b', '[', '2', 'm'],
    }
}

/// The escape prefix that `colored` writes for a badge style.
pub open spec fn badge_prefix(p: BadgePaint) -> Seq<char> {
    match p {
        BadgePaint::WhiteOnBrightRedBold => seq!['\x1b', '[', '1', ';', '1', '0', '1', ';', '3', '7', 'm'],
        BadgePaint::WhiteOnBrightGreenBold => seq!['\x1b', '[', '1', ';', '1', '0', '2', ';', '3', '7', 'm'],
        BadgePaint::WhiteOnBrightMagentaBold => seq!['\x1b', '[', '1', ';', '1', '0', '5', ';', '3', '7', 'm'],
        BadgePaint::WhiteOnBrightBlack => seq!['\x1b', '[', '1', '0', '0', ';', '3', '7', 'm'],
        BadgePaint::WhiteOnRed => seq!['\x1b', '[', '4', '1', ';', '3', '7', 'm'],
        BadgePaint::WhiteOnGreen => seq!['\x1b', '[', '4', '2', ';', '3', '7', 'm'],
        BadgePaint::WhiteOnMagenta => seq!['\x1b', '[', '4', '5', ';', '3', '7', 'm'],
    }
}

proof fn lemma_prefixes_are_styles(p: Paint, b: BadgePaint)
    ensures
        style_code(paint_prefix(p)),
        style_code(badge_prefix(b)),
{
}

/// Styles a text: `paint`, with what follows of its result.
pub(crate) fn paint_styled(text: &str, p: Paint) -> (res: String)
    ensures
        styled_as(res@, text@, paint_prefix(p)),
        painted(res@, text@),
{
    let r = paint(text, p);
    proof {
        lemma_prefixes_are_styles(p, BadgePaint::WhiteOnRed);
        lemma_styled_painted(r@, text@, paint_prefix(p));
    }
    r
}

/// Styles a badge: `paint_badge`, with what follows of its result.
fn badge_styled(text: &str, p: BadgePaint) -> (res: String)
    ensures
        styled_as(res@, text@, badge_prefix(p)),
        painted(res@, text@),
{
    let r = paint_badge(text, p);
    proof {
        lemma_prefixes_are_styles(Paint::Bold, p);
        lemma_styled_painted(r@, text@, badge_prefix(p));
    }
    r
}

/// A text left as it is counts as painted.
pub proof fn lemma_painted_plain(t: Seq<char>)
    ensures
        painted(t, t),
{
    lemma_prefixes_are_styles(Paint::Bold, BadgePaint::WhiteOnRed);
    lemma_styled_painted(t, t, paint_prefix(Paint::Bold));
}

proof fn lemma_styled_painted(res: Seq<char>, text: Seq<char>, prefix: Seq<char>)
    requires
        style_code(prefix),
        styled_as(res, text, prefix),
    ensures
        painted(res, text),
{
}

/// Styles a text with `colored` (`Colorize` and `ColoredString`) and renders
/// it with `to_string`. Trusted: `colored`'s `Display` renders the input
/// unchanged where colouring is off (environment and terminal decide), and
/// otherwise as the style's escape prefix (`compute_style`), the input with
/// that prefix put again after each reset sequence in it
/// (`escape_inner_reset_sequences`), and the reset sequence.
#[verifier::external_body]
pub(crate) fn paint(text: &str, p: Paint) -> (res: String)
    ensures
        styled_as(res@, text@, paint_prefix(p)),
{
    match p {
        Paint::YellowBold => text.yellow().bold(),
        Paint::GreenBold => text.green().bold(),
        Paint::YellowDimmedItalic => text.yellow().dimmed().italic(),
        Paint::DimmedItalic => text.dimmed().italic(),
        Paint::Italic => text.italic(),
        Paint::RedBoldBlink => text.red().bold().blink(),
        Paint::Bold => text.bold(),
        Paint::CyanBold => text.cyan().bold(),
        Paint::RedBold => text.red().bold(),
        Paint::Dimmed => text.dimmed(),
    }.to_string()
}

/// Styles a badge with `colored` and renders it with `to_string`. Trusted as
/// `paint` is.
#[verifier::external_body]
fn paint_badge(text: &str, p: BadgePaint) -> (res: String)
    ensures
        styled_as(res@, text@, badge_prefix(p)),
{
    match p {
        BadgePaint::WhiteOnBrightRedBold => text.white().on_bright_red().bold(),
        BadgePaint::WhiteOnBrightGreenBold => text.white().on_bright_green().bold(),
        BadgePaint::WhiteOnBrightMagentaBold => text.white().on_bright_magenta().bold(),
        BadgePaint::WhiteOnBrightBlack => text.white().on_bright_black(),
        BadgePaint::WhiteOnRed => text.white().on_red(),
        BadgePaint::WhiteOnGreen => text.white().on_green(),
        BadgePaint::WhiteOnMagenta => text.white().on_magenta(),
    }.to_string()
}

/// Asks `supports_color::on` whether the standard output (or, for `false`,
/// the standard error) is a colour terminal. Nothing is stated of the answer:
/// it depends on the terminal and the environment.
#[verifier::external_body]
fn stream_supports_color(stdout: bool) -> (res: bool) {
    let stream = if stdout {
        supports_color::Stream::Stdout
    } else {
        supports_color::Stream::Stderr
    };
    supports_color::on(stream).is_some()
}

/// What `char::to_uppercase` yields for a character.
pub uninterp spec fn char_to_uppercase(c: char) -> Seq<char>;

/// Calls `char::to_uppercase` and collects the characters. Trusted: the result
/// is the name `char_to_uppercase` of the character, and an ASCII character
/// maps to its ASCII uppercase form, as the documentation states.
#[verifier::external_body]
fn uppercase_chars(c: char) -> (res: Vec<char>)
    ensures
        res@ == char_to_uppercase(c),
        (c as u32) < 128 ==> res@ == seq![crate::text::ascii_upper(c)],
{
    c.to_uppercase().collect()
}

/// What `char::to_uppercase` yields: the ASCII uppercase form of an ASCII
/// character, and `char_to_uppercase` of any other.
pub open spec fn char_upper(c: char) -> Seq<char> {
    if (c as u32) < 128 {
        seq![crate::text::ascii_upper(c)]
    } else {
        char_to_uppercase(c)
    }
}

/// `str::to_uppercase`: every character uppercased as `char::to_uppercase`
/// does.
pub open spec fn upper_all(s: Seq<char>) -> Seq<char>
    decreases s.len(),
{
    if s.len() == 0 {
        Seq::empty()
    } else {
        upper_all(s.drop_last()) + char_upper(s.last())
    }
}

fn to_uppercase(s: &str) -> (res: String)
    ensures
        res@ == upper_all(s@),
{
    let v = chars_of(s);
    let mut out = String::new();
    let mut i: usize = 0;
    while i < v.len()
        invariant
            i <= v.len(),
            v@ == s@,
            out@ == upper_all(v@.take(i as int)),
        decreases v.len() - i,
    {
        assert(v@.take(i + 1).drop_last() =~= v@.take(i as int));
        let up = uppercase_chars(v[i]);
        push_chars(&mut out, &up);
        i = i + 1;
    }
    assert(v@.take(v.len() as int) =~= v@);
    out
}

/// The output settings of the command-line interface: whether plain output
/// was asked for, and the name under which the program was started.
#[derive(Clone, Debug)]
pub struct Ui {
    pub plain: bool,
    pub command_name: String,
}

/// The text `` `command` ``.
pub open spec fn cmd_text(command: Seq<char>) -> Seq<char> {
    seq!['`'] + command + seq!['`']
}

/// `format_hint` without colour: `INFO: message` in plain mode, else the
/// message after two newlines.
pub open spec fn hint_text(message: Seq<char>, plain: bool) -> Seq<char> {
    if plain {
        "INFO: "@ + message
    } else {
        "\n\n"@ + message
    }
}

/// The full command line for a subcommand of the program.
pub open spec fn command_line(name: Seq<char>, cmd: Seq<char>) -> Seq<char> {
    if cmd.len() == 0 {
        name
    } else {
        name + seq![' '] + cmd
    }
}

/// What `str::lines` yields: the text split at `\n`, without a last empty
/// line, and each line without one trailing `\r`.
#[verifier::opaque]
pub open spec fn lines_of(s: Seq<char>) -> Seq<Seq<char>>
    decreases s.len(),
{
    if s.len() == 0 {
        Seq::empty()
    } else if s.contains('\n') {
        let i = crate::text::first_pos(s, '\n');
        proof {
            crate::text::lemma_first_pos(s, '\n');
        }
        seq![strip_cr(s.take(i))] + lines_of(s.skip(i + 1))
    } else {
        seq![strip_cr(s)]
    }
}

/// A line without one trailing `\r`.
pub open spec fn strip_cr(l: Seq<char>) -> Seq<char> {
    if l.len() > 0 && l.last() == '\r' {
        l.drop_last()
    } else {
        l
    }
}

/// Lines joined by `\n`.
pub open spec fn join_lines(ls: Seq<Seq<char>>) -> Seq<char>
    decreases ls.len(),
{
    if ls.len() == 0 {
        Seq::empty()
    } else if ls.len() == 1 {
        ls[0]
    } else {
        join_lines(ls.drop_last()) + seq!['\n'] + ls.last()
    }
}

/// The lines joined by `\n`, each non-empty one after a space.
#[verifier::opaque]
pub open spec fn indented_text(ls: Seq<Seq<char>>) -> Seq<char> {
    join_lines(ls.map_values(|l: Seq<char>| indent_line(l)))
}

/// A non-empty line with one space in front.
pub open spec fn indent_line(l: Seq<char>) -> Seq<char> {
    if l.len() == 0 {
        l
    } else {
        seq![' '] + l
    }
}

/// `normalize_error`: the message without an `Error: ` prefix, with messages
/// that ask for `codex login` shortened to one of three fixed sentences.
pub open spec fn normalized_error(message: Seq<char>) -> Seq<char> {
    let m = if is_prefix("Error: "@, message) {
        message.skip(7)
    } else {
        message
    };
    if contains_seq(m, "codex login"@) {
        if contains_seq(m, "not found"@) {
            "Not logged in. Run `codex login`."@
        } else if contains_seq(m, "invalid JSON"@) {
            "Auth file is invalid. Run `codex login`."@
        } else {
            "Auth is incomplete. Run `codex login`."@
        }
    } else {
        m
    }
}

/// The plan badge without colour: `[PLAN]`.
pub open spec fn plan_badge_text(plan: Seq<char>) -> Seq<char> {
    seq!['['] + upper_all(plan) + seq![']']
}

/// The label suffix without colour: ` (label)`, or nothing.
pub open spec fn label_text(label: Option<Seq<char>>) -> Seq<char> {
    match label {
        Some(l) => " ("@ + l + seq![')'],
        None => Seq::empty(),
    }
}

/// A coloured plan badge: ` PLAN ` in a badge style.
pub open spec fn badge_part(b: Seq<char>, plan: Seq<char>) -> bool {
    painted(b, seq![' '] + upper_all(plan) + seq![' '])
}

/// A coloured label suffix: ` label ` in a badge style, or nothing.
pub open spec fn label_part(l: Seq<char>, label: Option<Seq<char>>) -> bool {
    match label {
        Some(v) => painted(l, seq![' '] + v + seq![' ']),
        None => l.len() == 0,
    }
}

/// A coloured email: ` email ` in a badge style.
pub open spec fn email_part(m: Seq<char>, email: Seq<char>) -> bool {
    painted(m, seq![' '] + email + seq![' '])
}

/// Whether the email and plan both read `Key` (an API-key login).
pub open spec fn key_login_of(email: Option<Seq<char>>, plan: Option<Seq<char>>) -> bool {
    match (email, plan) {
        (Some(e), Some(p)) => eq_ignore_case(e, "Key"@) && eq_ignore_case(p, "Key"@),
        _ => false,
    }
}

/// The heading part of an entry header: the display text, styled.
pub open spec fn header_part(b: Seq<char>, display: Seq<char>) -> bool {
    painted(b, display)
}

/// The last-used part of an entry header: ` when`, styled, where it is
/// shown, and nothing otherwise.
pub open spec fn last_used_part(t: Seq<char>, last_used: Seq<char>, shown: bool) -> bool {
    if shown {
        painted(t, seq![' '] + last_used)
    } else {
        t.len() == 0
    }
}

/// What holds of `format_entry_header` with colour, whatever the terminal:
/// the styled display text, then the styled last-used text where it is
/// shown, with nothing else.
pub open spec fn entry_header_colored(
    res: Seq<char>,
    display: Seq<char>,
    last_used: Seq<char>,
    shown: bool,
) -> bool {
    exists|b: Seq<char>, t: Seq<char>|
        #![trigger header_part(b, display), last_used_part(t, last_used, shown)]
        res == b + t && header_part(b, display) && last_used_part(t, last_used, shown)
}

/// A coloured plan badge followed by a coloured label suffix.
pub open spec fn badge_label_parts(res: Seq<char>, plan: Seq<char>, label: Option<Seq<char>>) -> bool {
    exists|b: Seq<char>, l: Seq<char>|
        #![trigger badge_part(b, plan), label_part(l, label)]
        res == b + l && badge_part(b, plan) && label_part(l, label)
}

/// A coloured plan badge, email badge and label suffix, in that order.
pub open spec fn badge_email_label_parts(
    res: Seq<char>,
    plan: Seq<char>,
    email: Seq<char>,
    label: Option<Seq<char>>,
) -> bool {
    exists|b: Seq<char>, m: Seq<char>, l: Seq<char>|
        #![trigger badge_part(b, plan), email_part(m, email), label_part(l, label)]
        res == b + m + l && badge_part(b, plan) && email_part(m, email) && label_part(l, label)
}

/// A text followed by a coloured label suffix.
pub open spec fn text_label_parts(res: Seq<char>, text: Seq<char>, label: Option<Seq<char>>) -> bool {
    exists|l: Seq<char>| #![trigger label_part(l, label)] res == text + l && label_part(l, label)
}

/// What holds of `format_profile_display` with colour, whatever the
/// terminal: the plan badge, then the email badge, then the label badge, in
/// that order and with nothing else.
pub open spec fn profile_display_colored(
    res: Seq<char>,
    email: Option<Seq<char>>,
    plan: Option<Seq<char>>,
    label: Option<Seq<char>>,
) -> bool {
    if key_login_of(email, plan) {
        badge_label_parts(res, "Key"@, label)
    } else {
        match email {
            Some(e) => badge_email_label_parts(
                res,
                match plan {
                    Some(p) => p,
                    None => "Unknown"@,
                },
                e,
                label,
            ),
            None => text_label_parts(res, "Unknown profile"@, label),
        }
    }
}

/// `format_profile_display` without colour.
pub open spec fn profile_display_text(
    email: Option<Seq<char>>,
    plan: Option<Seq<char>>,
    label: Option<Seq<char>>,
) -> Seq<char> {
    let key_login = match (email, plan) {
        (Some(e), Some(p)) => eq_ignore_case(e, "Key"@) && eq_ignore_case(p, "Key"@),
        _ => false,
    };
    if key_login {
        plan_badge_text("Key"@) + label_text(label)
    } else {
        match email {
            Some(e) => {
                let p = match plan {
                    Some(p) => p,
                    None => "Unknown"@,
                };
                plan_badge_text(p) + seq![' '] + e + label_text(label)
            },
            None => "Unknown profile"@ + label_text(label),
        }
    }
}

/// Whether a last-used text is shown after an entry header.
pub open spec fn shows_last_used(last_used: Seq<char>, is_current: bool) -> bool {
    !is_current && last_used.len() > 0 && !eq_ignore_case(last_used, "unknown"@)
}

impl Ui {
    /// Settings for a program started under `command_name`, not in plain mode.
    pub fn new(command_name: &str) -> (res: Ui)
        ensures
            !res.plain,
            res.command_name@ == command_name@,
    {
        Ui { plain: false, command_name: owned(command_name) }
    }

    /// Turns plain output on or off.
    pub fn set_plain(&mut self, value: bool)
        ensures
            final(self).plain == value,
            final(self).command_name == old(self).command_name,
    {
        self.plain = value;
    }

    /// Whether plain output is on.
    pub fn is_plain(&self) -> (res: bool)
        ensures
            res == self.plain,
    {
        self.plain
    }

    /// Whether standard output gets colour: never in plain mode or where
    /// `NO_COLOR` is set; otherwise as the terminal supports it.
    pub fn use_color_stdout(&self, no_color: bool) -> (res: bool)
        ensures
            self.plain || no_color ==> !res,
    {
        if self.plain || no_color {
            return false;
        }
        stream_supports_color(true)
    }

    /// Whether standard error gets colour, as for standard output.
    pub fn use_color_stderr(&self, no_color: bool) -> (res: bool)
        ensures
            self.plain || no_color ==> !res,
    {
        if self.plain || no_color {
            return false;
        }
        stream_supports_color(false)
    }

    /// Whether standard error is an interactive colour terminal.
    pub fn use_tty_stderr(&self, no_color: bool) -> (res: bool)
        ensures
            self.plain || no_color ==> !res,
    {
        self.use_color_stderr(no_color)
    }

    /// The terminal width given by `COLUMNS`, except in plain mode.
    pub fn terminal_width(&self, columns: Option<&str>) -> (res: Option<usize>)
        ensures
            self.plain ==> res is None,
            !self.plain ==> match columns {
                None => res is None,
                Some(c) => match crate::num::parse_u64_seq(c@) {
                    Some(n) => (n <= usize::MAX ==> res == Some(n as usize)) && (n > usize::MAX
                        ==> res is None),
                    None => res is None,
                },
            },
    {
        if self.plain {
            return None;
        }
        match columns {
            None => None,
            Some(c) => match crate::num::parse_u64(c) {
                Some(n) => {
                    if n <= usize::MAX as u64 {
                        Some(n as usize)
                    } else {
                        None
                    }
                },
                None => None,
            },
        }
    }

    /// A text in the given style where colour is on and plain mode is off;
    /// otherwise the text itself.
    pub fn style_text(&self, text: &str, use_color: bool, p: Paint) -> (res: String)
        ensures
            use_color && !self.plain ==> painted(res@, text@),
            use_color && !self.plain ==> styled_as(res@, text@, paint_prefix(p)),
            !use_color || self.plain ==> res@ == text@,
    {
        if use_color && !self.plain {
            paint_styled(text, p)
        } else {
            owned(text)
        }
    }

    /// A command in backquotes, yellow and bold on a colour terminal.
    pub fn format_cmd(&self, command: &str, use_color: bool) -> (res: String)
        ensures
            use_color && !self.plain ==> painted(res@, cmd_text(command@)),
            use_color && !self.plain ==> styled_as(res@, cmd_text(command@), paint_prefix(Paint::YellowBold)),
            !use_color || self.plain ==> res@ == cmd_text(command@),
    {
        let text = concat3("`", command, "`");
        proof {
            reveal_strlit("`");
        }
        assert(text@ =~= cmd_text(command@));
        self.style_text(text.as_str(), use_color, Paint::YellowBold)
    }

    /// A message marked as done.
    pub fn format_action(&self, message: &str, use_color: bool) -> (res: String)
        ensures
            use_color && !self.plain ==> painted(res@, "✅ "@ + message@),
            use_color && !self.plain ==> styled_as(res@, "✅ "@ + message@, paint_prefix(Paint::GreenBold)),
            !use_color || self.plain ==> res@ == "✅ "@ + message@,
    {
        let text = concat("✅ ", message);
        self.style_text(text.as_str(), use_color, Paint::GreenBold)
    }

    /// A warning: `WARNING: ` in plain mode, else `Warning: `, then the message.
    pub fn format_warning(&self, message: &str, use_color: bool) -> (res: String)
        ensures
            ({
                let text = if self.plain {
                    "WARNING: "@ + message@
                } else {
                    "Warning: "@ + message@
                };
                &&& use_color && !self.plain ==> painted(res@, text)
                &&& use_color && !self.plain ==> styled_as(res@, text, paint_prefix(Paint::YellowDimmedItalic))
                &&& !use_color || self.plain ==> res@ == text
            }),
    {
        let text = if self.plain {
            concat("WARNING: ", message)
        } else {
            concat("Warning: ", message)
        };
        self.style_text(text.as_str(), use_color, Paint::YellowDimmedItalic)
    }

    /// The message for a cancelled prompt.
    pub fn format_cancel(&self, use_color: bool) -> (res: String)
        ensures
            use_color && !self.plain ==> painted(res@, CANCELLED_MESSAGE@),
            use_color && !self.plain ==> styled_as(res@, CANCELLED_MESSAGE@, paint_prefix(Paint::DimmedItalic)),
            !use_color || self.plain ==> res@ == CANCELLED_MESSAGE@,
    {
        self.style_text(CANCELLED_MESSAGE, use_color, Paint::DimmedItalic)
    }

    /// A hint: `INFO: message` in plain mode, else the message after a blank
    /// line, in italics on a colour terminal.
    pub fn format_hint(&self, message: &str, use_color: bool) -> (res: String)
        ensures
            self.plain ==> res@ == hint_text(message@, true),
            !self.plain && use_color ==> painted(res@, hint_text(message@, false)),
            !self.plain && use_color ==> styled_as(res@, hint_text(message@, false), paint_prefix(Paint::Italic)),
            !self.plain && !use_color ==> res@ == hint_text(message@, false),
    {
        if self.plain {
            concat("INFO: ", message)
        } else {
            let text = concat("\n\n", message);
            self.style_text(text.as_str(), use_color, Paint::Italic)
        }
    }

    /// A subcommand of this program, formatted as a command.
    pub fn format_command(&self, cmd: &str, use_color: bool) -> (res: String)
        ensures
            use_color && !self.plain ==> painted(
                res@,
                cmd_text(command_line(self.command_name@, cmd@)),
            ),
            use_color && !self.plain ==> cmd_colored(
                res@,
                cmd_text(command_line(self.command_name@, cmd@)),
            ),
            !use_color || self.plain ==> res@ == cmd_text(command_line(self.command_name@, cmd@)),
    {
        let full = if cmd.is_empty() {
            owned(self.command_name.as_str())
        } else {
            concat3(self.command_name.as_str(), " ", cmd)
        };
        proof {
            reveal_strlit(" ");
        }
        assert(" "@ =~= seq![' ']);
        assert(full@ =~= command_line(self.command_name@, cmd@));
        self.format_cmd(full.as_str(), use_color)
    }

    /// A hint to save the current login (`save_only`, where it can be saved),
    /// or to log in and then save (`with_login`), with `{save}` and `{login}`
    /// replaced by the commands.
    pub fn format_save_hint(
        &self,
        has_auth: bool,
        use_color: bool,
        save_only: &str,
        with_login: &str,
    ) -> (res: String)
        ensures
            !use_color || self.plain ==> res@ == hint_text(
                save_hint_message(self.command_name@, has_auth, save_only@, with_login@),
                self.plain,
            ),
            use_color && !self.plain ==> save_hint_colored(
                res@,
                self.command_name@,
                has_auth,
                save_only@,
                with_login@,
            ),
    {
        let save = self.format_command("save", use_color);
        proof {
            reveal_strlit("save");
            reveal_strlit("{save}");
            reveal_strlit("{login}");
        }
        let ghost mut login_text: Seq<char> = cmd_text("codex login"@);
        let message = if has_auth {
            replace_str(save_only, "{save}", save.as_str())
        } else {
            let login = self.format_cmd("codex login", use_color);
            proof {
                login_text = login@;
            }
            let first = replace_str(with_login, "{login}", login.as_str());
            replace_str(first.as_str(), "{save}", save.as_str())
        };
        assert(message@ == save_hint_with(has_auth, save_only@, with_login@, save@, login_text));
        let res = self.format_hint(message.as_str(), use_color);
        proof {
            if use_color && !self.plain {
                assert(cmd_colored(login_text, cmd_text("codex login"@)));
                assert(cmd_colored(save@, cmd_text(command_line(self.command_name@, "save"@))));
            }
        }
        res
    }

    /// The message when no profile is saved yet.
    pub fn format_no_profiles(&self, has_auth: bool, use_color: bool) -> (res: String)
        ensures
            !use_color || self.plain ==> res@ == "No saved profiles. "@ + hint_text(
                save_hint_message(
                    self.command_name@,
                    has_auth,
                    "Run {save} to save this profile."@,
                    "Run {login} • then {save}."@,
                ),
                self.plain,
            ),
            use_color && !self.plain ==> exists|h: Seq<char>|
                #![trigger save_hint_colored(h, self.command_name@, has_auth, "Run {save} to save this profile."@, "Run {login} • then {save}."@)]
                save_hint_colored(
                    h,
                    self.command_name@,
                    has_auth,
                    "Run {save} to save this profile."@,
                    "Run {login} • then {save}."@,
                ) && res@ == "No saved profiles. "@ + h,
    {
        let hint = self.format_save_hint(
            has_auth,
            use_color,
            "Run {save} to save this profile.",
            "Run {login} • then {save}.",
        );
        concat("No saved profiles. ", hint.as_str())
    }

    /// The message when a profile must be saved before another is loaded.
    pub fn format_save_before_load(&self, has_auth: bool, use_color: bool) -> (res: String)
        ensures
            !use_color || self.plain ==> res@ == hint_text(
                save_hint_message(
                    self.command_name@,
                    has_auth,
                    "Run {save} before loading."@,
                    "Run {login}, then {save} before loading."@,
                ),
                self.plain,
            ),
            use_color && !self.plain ==> save_hint_colored(
                res@,
                self.command_name@,
                has_auth,
                "Run {save} before loading."@,
                "Run {login}, then {save} before loading."@,
            ),
    {
        self.format_save_hint(
            has_auth,
            use_color,
            "Run {save} before loading.",
            "Run {login}, then {save} before loading.",
        )
    }

    /// The two lines that warn that the current login is not saved.
    pub fn format_unsaved_warning(&self, use_color: bool) -> (res: Vec<String>)
        ensures
            res.len() == 2,
            ({
                let save_line = "Run "@ + cmd_text(command_line(self.command_name@, "save"@))
                    + " to save this profile."@;
                let warning = "WARNING: This profile is not saved yet."@;
                &&& !use_color || self.plain ==> res@[0]@ == warning && res@[1]@ == save_line
                &&& use_color && !self.plain ==> painted(res@[0]@, warning) && painted(
                    res@[1]@,
                    save_line,
                )
            }),
    {
        let warning = "WARNING: This profile is not saved yet.";
        let cmd = self.format_command("save", false);
        let save_line = concat3("Run ", cmd.as_str(), " to save this profile.");
        if !use_color {
            return vec![owned(warning), save_line];
        }
        let a = self.style_text(warning, use_color, Paint::YellowDimmedItalic);
        let b = self.style_text(save_line.as_str(), use_color, Paint::DimmedItalic);
        vec![a, b]
    }

    /// A hint to list the saved profiles.
    pub fn format_list_hint(&self, use_color: bool) -> (res: String)
        ensures
            !use_color || self.plain ==> res@ == hint_text(
                "Run "@ + cmd_text(command_line(self.command_name@, "list"@))
                    + " to see saved profiles."@,
                self.plain,
            ),
            use_color && !self.plain ==> list_hint_colored(res@, self.command_name@),
    {
        let list = self.format_command("list", use_color);
        let message = concat3("Run ", list.as_str(), " to see saved profiles.");
        let res = self.format_hint(message.as_str(), use_color);
        proof {
            if use_color && !self.plain {
                assert(cmd_colored(list@, cmd_text(command_line(self.command_name@, "list"@))));
            }
        }
        res
    }

    /// A profile as shown in lists: its plan badge, its email and its label.
    pub fn format_profile_display(
        &self,
        email: Option<String>,
        plan: Option<String>,
        label: Option<String>,
        is_current: bool,
        use_color: bool,
    ) -> (res: String)
        ensures
            !use_color ==> res@ == profile_display_text(
                crate::auth::opt_seq(email),
                crate::auth::opt_seq(plan),
                crate::auth::opt_seq(label),
            ),
            use_color ==> profile_display_colored(
                res@,
                crate::auth::opt_seq(email),
                crate::auth::opt_seq(plan),
                crate::auth::opt_seq(label),
            ),
    {
        let ghost ge = crate::auth::opt_seq(email);
        let ghost gp = crate::auth::opt_seq(plan);
        let ghost gl = crate::auth::opt_seq(label);
        let key_login = match (&email, &plan) {
            (Some(e), Some(p)) => str_eq_ignore_case(e.as_str(), "Key") && str_eq_ignore_case(
                p.as_str(),
                "Key",
            ),
            _ => false,
        };
        let label_ref: Option<&str> = match &label {
            Some(l) => Some(l.as_str()),
            None => None,
        };
        assert(key_login == key_login_of(ge, gp));
        if key_login {
            let badge = format_plan_badge("Key", is_current, use_color);
            let suffix = format_label(label_ref, use_color);
            let out = concat(badge.as_str(), suffix.as_str());
            proof {
                if use_color {
                    assert(badge_part(badge@, "Key"@) && label_part(suffix@, gl));
                    assert(out@ == badge@ + suffix@);
                    assert(profile_display_colored(out@, ge, gp, gl));
                }
            }
            return out;
        }
        let suffix = format_label(label_ref, use_color);
        match email {
            Some(email) => {
                let plan = match plan {
                    Some(p) => p,
                    None => owned("Unknown"),
                };
                let plan_is_free = crate::auth::is_free_plan(Some(plan.as_str()));
                let badge = format_plan_badge(plan.as_str(), is_current, use_color);
                if use_color {
                    let email_badge = format_email_badge(email.as_str(), plan_is_free, is_current);
                    let ghost gb = badge@;
                    let mut out = badge;
                    push_str(&mut out, email_badge.as_str());
                    push_str(&mut out, suffix.as_str());
                    proof {
                        assert(badge_part(gb, plan@) && email_part(email_badge@, email@)
                            && label_part(suffix@, gl));
                        assert(out@ == gb + email_badge@ + suffix@);
                        assert(ge == Some(email@));
                        assert(plan@ == (match gp {
                            Some(p) => p,
                            None => "Unknown"@,
                        }));
                        assert(badge_email_label_parts(out@, plan@, email@, gl));
                        assert(profile_display_colored(out@, ge, gp, gl));
                    }
                    out
                } else {
                    let mut out = badge;
                    out.push(' ');
                    push_str(&mut out, email.as_str());
                    push_str(&mut out, suffix.as_str());
                    out
                }
            },
            None => {
                let out = concat("Unknown profile", suffix.as_str());
                proof {
                    if use_color {
                        assert(label_part(suffix@, gl));
                        assert(profile_display_colored(out@, ge, gp, gl));
                    }
                }
                out
            },
        }
    }

    /// The heading of a profile entry: the display text, bold on a colour
    /// terminal, followed by when it was last used unless it is current or
    /// that is unknown.
    pub fn format_entry_header(
        &self,
        display: &str,
        last_used: &str,
        is_current: bool,
        use_color: bool,
    ) -> (res: String)
        ensures
            !use_color ==> res@ == display@ + (if shows_last_used(last_used@, is_current) {
                " ("@ + last_used@ + seq![')']
            } else {
                Seq::empty()
            }),
            use_color ==> entry_header_colored(
                res@,
                display@,
                last_used@,
                shows_last_used(last_used@, is_current),
            ),
    {
        let mut base = if use_color {
            paint_styled(display, Paint::Bold)
        } else {
            owned(display)
        };
        let ghost head = base@;
        let shown = !is_current && !last_used.is_empty() && !str_eq_ignore_case(last_used, "unknown");
        if shown {
            let badge = self.format_last_used_badge(last_used, use_color);
            push_str(&mut base, badge.as_str());
            proof {
                if use_color {
                    assert(header_part(head, display@) && last_used_part(badge@, last_used@, shown));
                }
            }
        } else {
            proof {
                if use_color {
                    assert(base@ == head + Seq::<char>::empty());
                    assert(header_part(head, display@) && last_used_part(
                        Seq::<char>::empty(),
                        last_used@,
                        shown,
                    ));
                }
            }
        }
        base
    }

    fn format_last_used_badge(&self, last_used: &str, use_color: bool) -> (res: String)
        ensures
            !use_color ==> res@ == " ("@ + last_used@ + seq![')'],
            use_color ==> painted(res@, seq![' '] + last_used@),
    {
        if use_color {
            let text = concat(" ", last_used);
            proof {
                reveal_strlit(" ");
            }
            assert(text@ =~= seq![' '] + last_used@);
            proof {
                lemma_painted_plain(text@);
            }
            self.style_text(text.as_str(), use_color, Paint::DimmedItalic)
        } else {
            let out = concat3(" (", last_used, ")");
            proof {
                reveal_strlit(")");
            }
            assert(out@ =~= " ("@ + last_used@ + seq![')']);
            out
        }
    }

    /// A message framed for output: indented by one space outside plain mode.
    pub fn output_block(&self, message: &str) -> (res: String)
        ensures
            self.plain ==> res@ == seq!['\n'] + message@ + seq!['\n'],
            !self.plain ==> res@ == seq!['\n'] + indented_text(lines_of(message@)) + seq!['\n'],
    {
        let body = if self.plain {
            owned(message)
        } else {
            indent_output(message)
        };
        let out = concat3("\n", body.as_str(), "\n");
        proof {
            reveal_strlit("\n");
        }
        assert(out@ =~= seq!['\n'] + body@ + seq!['\n']);
        out
    }
}

/// The save hint's message before it is formatted as a hint.
pub open spec fn save_hint_message(
    name: Seq<char>,
    has_auth: bool,
    save_only: Seq<char>,
    with_login: Seq<char>,
) -> Seq<char> {
    save_hint_with(
        has_auth,
        save_only,
        with_login,
        cmd_text(command_line(name, "save"@)),
        cmd_text("codex login"@),
    )
}

/// A save hint with the given texts for the save and login commands.
pub open spec fn save_hint_with(
    has_auth: bool,
    save_only: Seq<char>,
    with_login: Seq<char>,
    save: Seq<char>,
    login: Seq<char>,
) -> Seq<char> {
    if has_auth {
        replace_seq(save_only, "{save}"@, save)
    } else {
        replace_seq(replace_seq(with_login, "{login}"@, login), "{save}"@, save)
    }
}

/// A command as shown on a colour terminal: in the command style.
pub open spec fn cmd_colored(c: Seq<char>, text: Seq<char>) -> bool {
    styled_as(c, text, paint_prefix(Paint::YellowBold))
}

/// A save hint on a colour terminal: the hint text, in italics, built with
/// the styled save and login commands.
pub open spec fn save_hint_colored(
    res: Seq<char>,
    name: Seq<char>,
    has_auth: bool,
    save_only: Seq<char>,
    with_login: Seq<char>,
) -> bool {
    exists|save: Seq<char>, login: Seq<char>|
        #![trigger cmd_colored(save, cmd_text(command_line(name, "save"@))), cmd_colored(login, cmd_text("codex login"@))]
        cmd_colored(save, cmd_text(command_line(name, "save"@))) && cmd_colored(
            login,
            cmd_text("codex login"@),
        ) && styled_as(
            res,
            hint_text(save_hint_with(has_auth, save_only, with_login, save, login), false),
            paint_prefix(Paint::Italic),
        )
}

/// The hint to list the saved profiles on a colour terminal.
pub open spec fn list_hint_colored(res: Seq<char>, name: Seq<char>) -> bool {
    exists|l: Seq<char>|
        #![trigger cmd_colored(l, cmd_text(command_line(name, "list"@)))]
        cmd_colored(l, cmd_text(command_line(name, "list"@))) && styled_as(
            res,
            hint_text("Run "@ + l + " to see saved profiles."@, false),
            paint_prefix(Paint::Italic),
        )
}

/// An error message without its `Error: ` prefix, with the messages that ask
/// for `codex login` shortened.
pub fn normalize_error(message: &str) -> (res: String)
    ensures
        res@ == normalized_error(message@),
{
    let v = chars_of(message);
    let prefix = chars_of("Error: ");
    proof {
        reveal_strlit("Error: ");
    }
    let m = if crate::text::starts_with(&v, &prefix) {
        crate::text::slice_range(&v, 7, v.len())
    } else {
        v
    };
    assert(is_prefix("Error: "@, message@) ==> m@ =~= message@.skip(7));
    if contains(&m, &chars_of("codex login")) {
        if contains(&m, &chars_of("not found")) {
            return owned("Not logged in. Run `codex login`.");
        }
        if contains(&m, &chars_of("invalid JSON")) {
            return owned("Auth file is invalid. Run `codex login`.");
        }
        return owned("Auth is incomplete. Run `codex login`.");
    }
    string_of(&m)
}

/// What holds of an error line with colour, whatever the terminal: the
/// styled `Error:`, a space, and the normalized message.
pub open spec fn error_colored(line: Seq<char>, message: Seq<char>) -> bool {
    exists|p: Seq<char>|
        #![trigger painted(p, "Error:"@)]
        painted(p, "Error:"@) && line == p + seq![' '] + normalized_error(message)
}

/// An error line: `Error:` (red, bold and blinking on a colour terminal) and
/// the normalized message.
pub fn format_error(message: &str, use_color: bool) -> (res: String)
    ensures
        !use_color ==> res@ == "Error: "@ + normalized_error(message@),
        use_color ==> error_colored(res@, message@),
{
    let normalized = normalize_error(message);
    let prefix = if use_color {
        paint_styled("Error:", Paint::RedBoldBlink)
    } else {
        owned("Error:")
    };
    let out = concat3(prefix.as_str(), " ", normalized.as_str());
    proof {
        reveal_strlit("Error:");
        reveal_strlit(" ");
        reveal_strlit("Error: ");
    }
    assert(!use_color ==> out@ =~= "Error: "@ + normalized_error(message@));
    assert(use_color ==> painted(prefix@, "Error:"@) && out@ =~= prefix@ + seq![' '] + normalized_error(message@));
    out
}

/// The plan badge: ` PLAN ` on a coloured background (red for the free plan,
/// green for the current profile, magenta otherwise), or `[PLAN]`.
fn format_plan_badge(plan: &str, is_current: bool, use_color: bool) -> (res: String)
    ensures
        !use_color ==> res@ == plan_badge_text(plan@),
        use_color ==> badge_part(res@, plan@),
{
    let upper = to_uppercase(plan);
    if use_color {
        let text = concat3(" ", upper.as_str(), " ");
        proof {
            reveal_strlit(" ");
        }
        assert(text@ =~= seq![' '] + upper_all(plan@) + seq![' ']);
        let free = crate::auth::is_free_plan(Some(plan));
        if free {
            badge_styled(text.as_str(), BadgePaint::WhiteOnBrightRedBold)
        } else if is_current {
            badge_styled(text.as_str(), BadgePaint::WhiteOnBrightGreenBold)
        } else {
            badge_styled(text.as_str(), BadgePaint::WhiteOnBrightMagentaBold)
        }
    } else {
        let out = concat3("[", upper.as_str(), "]");
        proof {
            reveal_strlit("[");
            reveal_strlit("]");
        }
        assert(out@ =~= plan_badge_text(plan@));
        out
    }
}

/// The label after a profile: ` label ` on grey, or ` (label)`.
fn format_label(label: Option<&str>, use_color: bool) -> (res: String)
    ensures
        !use_color ==> res@ == label_text(
            match label {
                Some(l) => Some(l@),
                None => None,
            },
        ),
        use_color ==> label_part(
            res@,
            match label {
                Some(l) => Some(l@),
                None => None,
            },
        ),
{
    match label {
        Some(value) => {
            if use_color {
                let text = concat3(" ", value, " ");
                proof {
                    reveal_strlit(" ");
                }
                assert(text@ =~= seq![' '] + value@ + seq![' ']);
                badge_styled(text.as_str(), BadgePaint::WhiteOnBrightBlack)
            } else {
                let out = concat3(" (", value, ")");
                proof {
                    reveal_strlit(")");
                }
                assert(out@ =~= " ("@ + value@ + seq![')']);
                out
            }
        },
        None => String::new(),
    }
}

/// The email on a background that matches the plan badge.
fn format_email_badge(email: &str, plan_is_free: bool, is_current: bool) -> (res: String)
    ensures
        painted(res@, seq![' '] + email@ + seq![' ']),
{
    let text = concat3(" ", email, " ");
    proof {
        reveal_strlit(" ");
    }
    assert(text@ =~= seq![' '] + email@ + seq![' ']);
    if plan_is_free {
        badge_styled(text.as_str(), BadgePaint::WhiteOnRed)
    } else if is_current {
        badge_styled(text.as_str(), BadgePaint::WhiteOnGreen)
    } else {
        badge_styled(text.as_str(), BadgePaint::WhiteOnMagenta)
    }
}

pub(crate) proof fn lemma_lines_unfold(rest: Seq<char>)
    requires
        rest.len() > 0,
    ensures
        rest.contains('\n') ==> lines_of(rest) == seq![
            strip_cr(rest.take(crate::text::first_pos(rest, '\n'))),
        ] + lines_of(rest.skip(crate::text::first_pos(rest, '\n') + 1)),
        !rest.contains('\n') ==> lines_of(rest) == seq![strip_cr(rest)],
        lines_of(Seq::<char>::empty()) == Seq::<Seq<char>>::empty(),
{
    reveal(lines_of);
}

/// Text that ends at a line break splits into its own lines, then those of
/// what follows it.
pub proof fn lemma_lines_concat(c: Seq<char>, x: Seq<char>)
    requires
        c.len() == 0 || c.last() == '\n',
    ensures
        lines_of(c + x) == lines_of(c) + lines_of(x),
    decreases c.len(),
{
    lemma_lines_unfold(seq!['\n']);
    if c.len() == 0 {
        assert(c =~= Seq::<char>::empty());
        assert(c + x =~= x);
        assert(lines_of(c) + lines_of(x) =~= lines_of(x));
    } else {
        assert(c[c.len() - 1] == '\n');
        assert(c.contains('\n'));
        crate::text::lemma_first_pos(c, '\n');
        let i = crate::text::first_pos(c, '\n');
        let cx = c + x;
        assert(cx[i] == '\n');
        crate::text::lemma_index_of_first(cx, '\n', i);
        lemma_lines_unfold(c);
        lemma_lines_unfold(cx);
        let r = c.skip(i + 1);
        assert(cx.take(i) =~= c.take(i));
        assert(cx.skip(i + 1) =~= r + x);
        if r.len() > 0 {
            assert(r.last() == c.last());
        }
        lemma_lines_concat(r, x);
        assert(lines_of(cx) =~= lines_of(c) + lines_of(x));
    }
}

/// A line followed by a line break is one line.
pub proof fn lemma_lines_one(l: Seq<char>)
    requires
        !l.contains('\n'),
    ensures
        lines_of(l.push('\n')) == seq![strip_cr(l)],
{
    let s = l.push('\n');
    assert(s[l.len() as int] == '\n');
    assert forall|j: int| 0 <= j < l.len() implies s[j] != '\n' by {
        assert(s[j] == l[j]);
    }
    crate::text::lemma_index_of_first(s, '\n', l.len() as int);
    lemma_lines_unfold(s);
    assert(s.take(l.len() as int) =~= l);
    assert(s.skip(l.len() as int + 1) =~= Seq::<char>::empty());
    assert(lines_of(s) =~= seq![strip_cr(l)]);
}

pub(crate) proof fn lemma_lines_step(
    v: Seq<char>,
    start: int,
    line_end: int,
    next: int,
    raw: Seq<char>,
    line: Seq<char>,
    done: Seq<Seq<char>>,
)
    requires
        0 <= start < v.len(),
        done + lines_of(v.skip(start)) == lines_of(v),
        raw == v.subrange(start, line_end),
        line == strip_cr(raw),
        (v.skip(start).contains('\n') && line_end == start + crate::text::first_pos(
            v.skip(start),
            '\n',
        ) && next == line_end + 1) || (!v.skip(start).contains('\n') && line_end == v.len()
            && next == v.len()),
    ensures
        done.push(line) + lines_of(v.skip(next)) == lines_of(v),
{
    let rest = v.skip(start);
    lemma_lines_unfold(rest);
    if rest.contains('\n') {
        let k = crate::text::first_pos(rest, '\n');
        crate::text::lemma_first_pos(rest, '\n');
        assert(raw =~= rest.take(k));
        assert(rest.skip(k + 1) =~= v.skip(next));
    } else {
        assert(raw =~= rest);
        assert(v.skip(next) =~= Seq::<char>::empty());
    }
    assert(lines_of(rest) == seq![line] + lines_of(v.skip(next)));
    assert(done.push(line) + lines_of(v.skip(next)) =~= done + lines_of(rest));
}

proof fn lemma_join_push(
    done: Seq<Seq<char>>,
    line: Seq<char>,
    mid: Seq<char>,
    out: Seq<char>,
    before: Seq<char>,
)
    requires
        before == indented_text(done),
        mid == (if done.len() == 0 {
            before
        } else {
            before.push('\n')
        }),
        out == mid + indent_line(line),
    ensures
        out == indented_text(done.push(line)),
{
    reveal(indented_text);
    let nd = done.push(line);
    let f = |l: Seq<char>| indent_line(l);
    assert(nd.map_values(f).drop_last() =~= done.map_values(f));
    assert(nd.map_values(f).last() == indent_line(line));
    if done.len() == 0 {
        assert(nd.map_values(f) =~= seq![indent_line(line)]);
        assert(before =~= Seq::<char>::empty());
        assert(out =~= indent_line(line));
    } else {
        assert(out =~= before + seq!['\n'] + indent_line(line));
    }
}

/// Every non-empty line of a message indented by one space.
pub fn indent_output(message: &str) -> (res: String)
    ensures
        res@ == indented_text(lines_of(message@)),
{
    let v = chars_of(message);
    let mut out: Vec<char> = Vec::new();
    let mut start: usize = 0;
    let mut first = true;
    let ghost mut done: Seq<Seq<char>> = Seq::empty();
    assert(v@.skip(0) =~= v@);
    assert(done + lines_of(v@) =~= lines_of(v@));
    proof {
        reveal(indented_text);
        assert(done.map_values(|l: Seq<char>| indent_line(l)) =~= Seq::<Seq<char>>::empty());
    }
    while start < v.len()
        invariant
            start <= v.len(),
            v@ == message@,
            done + lines_of(v@.skip(start as int)) == lines_of(v@),
            out@ == indented_text(done),
            first == (done.len() == 0),
        decreases v.len() - start,
    {
        let rest = crate::text::slice_range(&v, start, v.len());
        assert(rest@ =~= v@.skip(start as int));
        let (line_end, next) = match crate::text::position_of(&rest, '\n') {
            Some(k) => {
                proof {
                    crate::text::lemma_index_of_first(rest@, '\n', k as int);
                }
                (start + k, start + k + 1)
            },
            None => (v.len(), v.len()),
        };
        let mut line = crate::text::slice_range(&v, start, line_end);
        let ghost raw = line@;
        if line.len() > 0 && line[line.len() - 1] == '\r' {
            line.pop();
        }
        assert(line@ =~= strip_cr(raw));
        proof {
            lemma_lines_step(v@, start as int, line_end as int, next as int, raw, line@, done);
        }
        let ghost before = out@;
        if !first {
            out.push('\n');
        }
        let ghost mid = out@;
        if line.len() > 0 {
            out.push(' ');
            let ghost mid2 = out@;
            let mut k: usize = 0;
            while k < line.len()
                invariant
                    k <= line.len(),
                    out@ == mid2 + line@.take(k as int),
                decreases line.len() - k,
            {
                out.push(line[k]);
                k = k + 1;
                assert(out@ =~= mid2 + line@.take(k as int));
            }
            assert(line@.take(line.len() as int) =~= line@);
            assert(out@ =~= mid + indent_line(line@));
        } else {
            assert(out@ =~= mid + indent_line(line@));
        }
        proof {
            lemma_join_push(done, line@, mid, out@, before);
            done = done.push(line@);
        }
        first = false;
        start = next;
    }
    proof {
        lemma_lines_unfold(seq![' ']);
        assert(v@.skip(start as int) =~= Seq::<char>::empty());
        assert(done =~= lines_of(v@));
    }
    string_of(&out)
}

} // verus!
