//! The priority ranking as a text table.
use vstd::prelude::*;

use crate::num::{dec_seq, i64_to_string, signed_dec_seq, u64_to_string};
use crate::priority::{recommendable, PriorityRow, PriorityState, PriorityUsage};
use crate::text::{concat, owned, push_str};
use crate::ui::join_lines;

verus! {

/// The number of the UTF-8 bytes of a text, which is what its width is
/// measured in.
pub open spec fn blen(s: Seq<char>) -> nat {
    vstd::utf8::encode_utf8(s).len()
}

/// The column headers.
pub open spec fn headers() -> Seq<Seq<char>> {
    seq![
        "#"@,
        "CUR"@,
        "PROFILE"@,
        "7D"@,
        "7D RESET"@,
        "5H"@,
        "5H RESET"@,
        "TIER"@,
        "SCORE"@,
        "STATE"@,
    ]
}

/// How many rows of a list can be recommended.
pub open spec fn count_recommendable(rows: Seq<PriorityRow>) -> nat
    decreases rows.len(),
{
    if rows.len() == 0 {
        0
    } else {
        count_recommendable(rows.drop_last()) + if recommendable(rows.last()) {
            1nat
        } else {
            0nat
        }
    }
}

/// A reset time as shown: the text, or `--`.
pub open spec fn reset_text(o: Option<String>) -> Seq<char> {
    match o {
        Some(s) => s@,
        None => "--"@,
    }
}

/// A score in hundredths as a number with one decimal, rounded half up.
pub open spec fn score_text(score: int) -> Seq<char> {
    let n = if score < 0 {
        -score
    } else {
        score
    };
    let t = (n + 5) / 10;
    (if score < 0 {
        "-"@
    } else {
        Seq::empty()
    }) + dec_seq((t / 10) as nat) + seq!['.'] + dec_seq((t % 10) as nat)
}

/// The state column of a ready row.
pub open spec fn ready_state_word(row: PriorityRow, u: PriorityUsage) -> Seq<char> {
    if row.is_current && !row.candidate {
        "CURRENT"@
    } else if u.tier == 0 {
        "READY"@
    } else if u.tier == 1 {
        "5H=0"@
    } else {
        "7D=0"@
    }
}

/// The cells of a row, given how many recommendable rows the list has up to
/// and including it.
pub open spec fn row_cells(row: PriorityRow, rank: nat) -> Seq<Seq<char>> {
    let current = if row.is_current {
        "*"@
    } else {
        Seq::empty()
    };
    match row.state {
        PriorityState::Ready(u) => seq![
            if row.candidate {
                dec_seq(rank)
            } else {
                "-"@
            },
            current,
            row.profile_name@,
            signed_dec_seq(u.seven_day_left as int) + "%"@,
            reset_text(u.seven_day_reset),
            signed_dec_seq(u.five_hour_left as int) + "%"@,
            reset_text(u.five_hour_reset),
            "T"@ + dec_seq(u.tier as nat),
            if u.tier == 0 {
                score_text(u.score as int)
            } else {
                "MIN"@
            },
            ready_state_word(row, u),
        ],
        PriorityState::Unavailable(_) => seq![
            "-"@,
            current,
            row.profile_name@,
            "--"@,
            "--"@,
            "--"@,
            "--"@,
            "--"@,
            "--"@,
            "UNAVAILABLE"@,
        ],
    }
}

/// The state column of a ready row that is not the current login kept out
/// of the candidates names the spent window: `7D=0` where the 7-day window
/// has no quota left, else `5H=0` where the 5-hour window has none, else
/// `READY`; the usage's tier is that of its quota.
pub proof fn lemma_state_word_names_spent_window(row: PriorityRow, rank: nat)
    requires
        row.state is Ready,
        row.state->Ready_0.tier == crate::priority::tier_of(
            row.state->Ready_0.five_hour_left as int,
            row.state->Ready_0.seven_day_left as int,
        ),
        !(row.is_current && !row.candidate),
    ensures
        row_cells(row, rank)[9] == (if row.state->Ready_0.seven_day_left <= 0 {
            "7D=0"@
        } else if row.state->Ready_0.five_hour_left <= 0 {
            "5H=0"@
        } else {
            "READY"@
        }),
{
}

/// The state column of the current login kept out of the candidates is
/// `CURRENT`, and that of an unavailable row `UNAVAILABLE`.
pub proof fn lemma_state_word_current_or_unavailable(row: PriorityRow, rank: nat)
    ensures
        row.state is Ready && row.is_current && !row.candidate ==> row_cells(row, rank)[9]
            == "CURRENT"@,
        row.state is Unavailable ==> row_cells(row, rank)[9] == "UNAVAILABLE"@,
{
}

/// The cells of every row of the table.
pub open spec fn table_cells(rows: Seq<PriorityRow>) -> Seq<Seq<Seq<char>>> {
    Seq::new(rows.len(), |i: int| row_cells(rows[i], count_recommendable(rows.take(i + 1))))
}

/// The width of a column: its widest cell or header, in bytes.
pub open spec fn col_width(data: Seq<Seq<Seq<char>>>, c: int) -> nat
    decreases data.len(),
{
    if data.len() == 0 {
        blen(headers()[c])
    } else {
        let w = col_width(data.drop_last(), c);
        let b = blen(data.last()[c]);
        if b > w {
            b
        } else {
            w
        }
    }
}

/// `n` spaces.
pub open spec fn spaces(n: nat) -> Seq<char> {
    Seq::new(n, |i: int| ' ')
}

/// A cell padded with spaces to at least `w` characters.
pub open spec fn pad(s: Seq<char>, w: nat) -> Seq<char> {
    if s.len() < w {
        s + spaces((w - s.len()) as nat)
    } else {
        s
    }
}

/// The first `k` cells of a line, padded and joined by two spaces.
pub open spec fn line_prefix(cells: Seq<Seq<char>>, widths: Seq<nat>, k: int) -> Seq<char>
    decreases k,
{
    if k <= 0 {
        Seq::empty()
    } else if k == 1 {
        pad(cells[0], widths[0])
    } else {
        line_prefix(cells, widths, k - 1) + "  "@ + pad(cells[k - 1], widths[k - 1])
    }
}

/// A line of the table.
pub open spec fn table_line(cells: Seq<Seq<char>>, widths: Seq<nat>) -> Seq<char> {
    line_prefix(cells, widths, 10)
}

/// The column widths of a table.
pub open spec fn widths_of(data: Seq<Seq<Seq<char>>>) -> Seq<nat> {
    Seq::new(10, |c: int| col_width(data, c))
}

/// The lines that list the unavailable rows with their reasons.
pub open spec fn unavailable_lines(rows: Seq<PriorityRow>) -> Seq<Seq<char>>
    decreases rows.len(),
{
    if rows.len() == 0 {
        Seq::empty()
    } else {
        unavailable_lines(rows.drop_last()) + match rows.last().state {
            PriorityState::Unavailable(r) => seq!["- "@ + rows.last().profile_name@ + ": "@ + r@],
            PriorityState::Ready(_) => Seq::empty(),
        }
    }
}

/// The lines of the ranking table without colour: a title, the header, a
/// separator, one line per row, and, where some rows are unavailable, a blank
/// line, a heading and one line per unavailable row.
pub open spec fn table_lines(rows: Seq<PriorityRow>) -> Seq<Seq<char>> {
    let data = table_cells(rows);
    let widths = widths_of(data);
    let sep = Seq::new(10, |c: int| Seq::new(widths[c], |i: int| '-'));
    let unavailable = unavailable_lines(rows);
    seq!["Priority ranking (best first)"@, table_line(headers(), widths), table_line(sep, widths)]
        + Seq::new(rows.len(), |i: int| table_line(data[i], widths)) + if unavailable.len() > 0 {
        seq![Seq::<char>::empty(), "Unavailable profiles"@] + unavailable
    } else {
        Seq::empty()
    }
}

fn header_cells() -> (res: Vec<String>)
    ensures
        res.len() == 10,
        strs(res@) == headers(),
{
    let v = vec![
        owned("#"),
        owned("CUR"),
        owned("PROFILE"),
        owned("7D"),
        owned("7D RESET"),
        owned("5H"),
        owned("5H RESET"),
        owned("TIER"),
        owned("SCORE"),
        owned("STATE"),
    ];
    assert(strs(v@) =~= headers());
    v
}

fn score_string(score: i64) -> (res: String)
    ensures
        res@ == score_text(score as int),
{
    let n: u64 = if score < 0 {
        (0i128 - score as i128) as u64
    } else {
        score as u64
    };
    let t: u64 = n / 10 + if n % 10 >= 5 {
        1
    } else {
        0
    };
    assert(t == (n + 5) / 10) by (nonlinear_arith)
        requires
            t == n / 10 + if n % 10 >= 5 {
                1u64
            } else {
                0u64
            },
    ;
    let mut out = if score < 0 {
        owned("-")
    } else {
        String::new()
    };
    push_str(&mut out, u64_to_string(t / 10).as_str());
    out.push('.');
    push_str(&mut out, u64_to_string(t % 10).as_str());
    assert(out@ =~= score_text(score as int));
    out
}

fn reset_string(o: &Option<String>) -> (res: String)
    ensures
        res@ == reset_text(*o),
{
    match o {
        Some(s) => s.clone(),
        None => owned("--"),
    }
}

fn row_cell_strings(row: &PriorityRow, rank: u64) -> (res: Vec<String>)
    ensures
        res.len() == 10,
        strs(res@) == row_cells(*row, rank as nat),
        row.state is Ready && row.state->Ready_0.tier == crate::priority::tier_of(
            row.state->Ready_0.five_hour_left as int,
            row.state->Ready_0.seven_day_left as int,
        ) && !(row.is_current && !row.candidate) ==> res@[9]@ == (if row.state->Ready_0.seven_day_left
            <= 0 {
            "7D=0"@
        } else if row.state->Ready_0.five_hour_left <= 0 {
            "5H=0"@
        } else {
            "READY"@
        }),
{
    let current = if row.is_current {
        owned("*")
    } else {
        String::new()
    };
    let v = match &row.state {
        PriorityState::Ready(u) => {
            let rank_text = if row.candidate {
                u64_to_string(rank)
            } else {
                owned("-")
            };
            let score = if u.tier == 0 {
                score_string(u.score)
            } else {
                owned("MIN")
            };
            let state = if row.is_current && !row.candidate {
                owned("CURRENT")
            } else if u.tier == 0 {
                owned("READY")
            } else if u.tier == 1 {
                owned("5H=0")
            } else {
                owned("7D=0")
            };
            vec![
                rank_text,
                current,
                row.profile_name.clone(),
                concat(i64_to_string(u.seven_day_left).as_str(), "%"),
                reset_string(&u.seven_day_reset),
                concat(i64_to_string(u.five_hour_left).as_str(), "%"),
                reset_string(&u.five_hour_reset),
                concat("T", u64_to_string(u.tier as u64).as_str()),
                score,
                state,
            ]
        },
        PriorityState::Unavailable(_) => vec![
            owned("-"),
            current,
            row.profile_name.clone(),
            owned("--"),
            owned("--"),
            owned("--"),
            owned("--"),
            owned("--"),
            owned("--"),
            owned("UNAVAILABLE"),
        ],
    };
    assert(strs(v@) =~= row_cells(*row, rank as nat));
    proof {
        if row.state is Ready && row.state->Ready_0.tier == crate::priority::tier_of(
            row.state->Ready_0.five_hour_left as int,
            row.state->Ready_0.seven_day_left as int,
        ) && !(row.is_current && !row.candidate) {
            lemma_state_word_names_spent_window(*row, rank as nat);
            assert(strs(v@)[9] == v@[9]@);
        }
    }
    v
}

/// Strings as texts.
pub open spec fn strs(v: Seq<String>) -> Seq<Seq<char>> {
    Seq::new(v.len(), |i: int| v[i]@)
}

/// The cells of a list of rows, as texts.
pub open spec fn cells_view(d: Seq<Vec<String>>) -> Seq<Seq<Seq<char>>> {
    Seq::new(d.len(), |i: int| strs(d[i]@))
}

/// Widths as numbers.
pub open spec fn widths_view(w: Seq<usize>) -> Seq<nat> {
    Seq::new(w.len(), |i: int| w[i] as nat)
}

fn byte_len(s: &str) -> (res: usize)
    ensures
        res == blen(s@),
{
    let b = s.as_bytes();
    b.len()
}

fn push_spaces(out: &mut String, n: usize)
    ensures
        final(out)@ == old(out)@ + spaces(n as nat),
{
    let ghost start = out@;
    let mut i: usize = 0;
    while i < n
        invariant
            i <= n,
            out@ == start + spaces(i as nat),
        decreases n - i,
    {
        out.push(' ');
        i = i + 1;
        assert(out@ =~= start + spaces(i as nat));
    }
}

/// A cell padded to its column's width, styled where colour is on.
fn padded_cell(cell: &str, width: usize, styled: Option<crate::ui::Paint>) -> (res: String)
    ensures
        styled is None ==> res@ == pad(cell@, width as nat),
        styled is Some ==> crate::ui::painted(res@, pad(cell@, width as nat)),
{
    let mut out = owned(cell);
    let n = crate::text::chars_of(cell).len();
    if n < width {
        push_spaces(&mut out, width - n);
    }
    match styled {
        Some(p) => crate::ui::paint_styled(out.as_str(), p),
        None => out,
    }
}

/// The cells joined by two spaces, as they stand.
pub open spec fn join_parts(parts: Seq<Seq<char>>, k: int) -> Seq<char>
    decreases k,
{
    if k <= 0 {
        Seq::empty()
    } else if k == 1 {
        parts[0]
    } else {
        join_parts(parts, k - 1) + "  "@ + parts[k - 1]
    }
}

/// Whether a cell of a data row is styled on a colour terminal: the state
/// cell where its state has a style, and the current marker.
pub open spec fn styled_cell(k: int, cell: Seq<char>) -> bool {
    (k == 9 && state_style(cell) is Some) || (k == 1 && cell == "*"@)
}

/// A cell of a coloured line: the padded cell, styled where the cell is
/// styled and as it is otherwise.
pub open spec fn cell_part(part: Seq<char>, k: int, cell: Seq<char>, w: nat) -> bool {
    if styled_cell(k, cell) {
        crate::ui::painted(part, pad(cell, w))
    } else {
        part == pad(cell, w)
    }
}

/// What holds of a data line of the table on a colour terminal, whatever
/// the terminal: every cell is padded to its column's width and the cells
/// are joined by two spaces, as without colour; the state cell and the
/// current marker may be styled, and no other cell is.
pub open spec fn colored_line(line: Seq<char>, cells: Seq<Seq<char>>, widths: Seq<nat>) -> bool {
    exists|parts: Seq<Seq<char>>|
        #![trigger join_parts(parts, 10)]
        parts.len() == 10 && line == join_parts(parts, 10) && forall|k: int|
            0 <= k < 10 ==> cell_part(#[trigger] parts[k], k, cells[k], widths[k])
}

/// What holds of the lines of the ranking table on a colour terminal: they
/// are the lines without colour, but for the data lines, each of which is a
/// `colored_line` of its row's cells.
pub open spec fn colored_table(ls: Seq<Seq<char>>, rows: Seq<PriorityRow>) -> bool {
    let t = table_lines(rows);
    let data = table_cells(rows);
    let widths = widths_of(data);
    &&& ls.len() == t.len()
    &&& forall|i: int|
        0 <= i < ls.len() ==> if 3 <= i < 3 + rows.len() {
            colored_line(#[trigger] ls[i], data[i - 3], widths)
        } else {
            ls[i] == t[i]
        }
}

/// The style of the state cell of a row on a colour terminal.
pub open spec fn state_style(state: Seq<char>) -> Option<crate::ui::Paint> {
    if state == "READY"@ {
        Some(crate::ui::Paint::GreenBold)
    } else if state == "CURRENT"@ {
        Some(crate::ui::Paint::CyanBold)
    } else if state == "5H=0"@ {
        Some(crate::ui::Paint::YellowBold)
    } else if state == "7D=0"@ {
        Some(crate::ui::Paint::RedBold)
    } else if state == "UNAVAILABLE"@ {
        Some(crate::ui::Paint::Dimmed)
    } else {
        None
    }
}

/// The style of the state cell of a row on a colour terminal.
fn state_paint(state: &str) -> (res: Option<crate::ui::Paint>)
    ensures
        res == state_style(state@),
{
    if crate::text::str_eq(state, "READY") {
        Some(crate::ui::Paint::GreenBold)
    } else if crate::text::str_eq(state, "CURRENT") {
        Some(crate::ui::Paint::CyanBold)
    } else if crate::text::str_eq(state, "5H=0") {
        Some(crate::ui::Paint::YellowBold)
    } else if crate::text::str_eq(state, "7D=0") {
        Some(crate::ui::Paint::RedBold)
    } else if crate::text::str_eq(state, "UNAVAILABLE") {
        Some(crate::ui::Paint::Dimmed)
    } else {
        None
    }
}

/// A line of the table: the cells padded and joined by two spaces; on a
/// colour terminal a data row's state cell and current marker are styled.
fn format_line(cells: &Vec<String>, widths: &Vec<usize>, data_row: bool, use_color: bool) -> (res:
    String)
    requires
        cells.len() == 10,
        widths.len() == 10,
    ensures
        !use_color || !data_row ==> res@ == table_line(strs(cells@), widths_view(widths@)),
        use_color && data_row ==> colored_line(res@, strs(cells@), widths_view(widths@)),
{
    let mut out = String::new();
    let mut k: usize = 0;
    let ghost cv = strs(cells@);
    let ghost wv = widths_view(widths@);
    let ghost mut parts: Seq<Seq<char>> = Seq::empty();
    proof {
        reveal_strlit("*");
    }
    while k < 10
        invariant
            k <= 10,
            cells.len() == 10,
            widths.len() == 10,
            cv == strs(cells@),
            wv == widths_view(widths@),
            !use_color || !data_row ==> out@ == line_prefix(cv, wv, k as int),
            parts.len() == k,
            out@ == join_parts(parts, k as int),
            use_color && data_row ==> forall|j: int|
                0 <= j < k ==> cell_part(#[trigger] parts[j], j, cv[j], wv[j]),
        decreases 10 - k,
    {
        let ghost before = out@;
        if k > 0 {
            push_str(&mut out, "  ");
        }
        let style = if use_color && data_row {
            if k == 9 {
                state_paint(cells[k].as_str())
            } else if k == 1 && crate::text::str_eq(cells[k].as_str(), "*") {
                Some(crate::ui::Paint::CyanBold)
            } else {
                None
            }
        } else {
            None
        };
        let cell = padded_cell(cells[k].as_str(), widths[k], style);
        push_str(&mut out, cell.as_str());
        proof {
            assert(cv[k as int] == cells@[k as int]@);
            assert(wv[k as int] == widths@[k as int] as nat);
            if k == 0 && (!use_color || !data_row) {
                assert(out@ =~= pad(cv[0], wv[0]));
            }
            let old_parts = parts;
            parts = parts.push(cell@);
            assert(join_parts(parts, k as int) == join_parts(old_parts, k as int)) by {
                lemma_join_parts_prefix(old_parts, parts, k as int);
            }
            if k == 0 {
                assert(out@ =~= join_parts(parts, 1));
            } else {
                assert(out@ =~= join_parts(parts, k + 1));
            }
            if use_color && data_row {
                assert(style == state_style(cv[9]) || k != 9);
                assert(cell_part(parts[k as int], k as int, cv[k as int], wv[k as int]));
            }
        }
        k = k + 1;
    }
    proof {
        if use_color && data_row {
            assert(parts.len() == 10 && out@ == join_parts(parts, 10) && forall|j: int|
                0 <= j < 10 ==> cell_part(#[trigger] parts[j], j, cv[j], wv[j]));
        }
    }
    out
}

proof fn lemma_join_parts_prefix(a: Seq<Seq<char>>, b: Seq<Seq<char>>, k: int)
    requires
        0 <= k <= a.len(),
        k <= b.len(),
        forall|j: int| 0 <= j < k ==> a[j] == b[j],
    ensures
        join_parts(a, k) == join_parts(b, k),
    decreases k,
{
    if k > 1 {
        lemma_join_parts_prefix(a, b, k - 1);
    }
}

pub(crate) fn join_newline(lines: &Vec<String>) -> (res: String)
    ensures
        res@ == join_lines(strs(lines@)),
{
    let mut out = String::new();
    let mut i: usize = 0;
    while i < lines.len()
        invariant
            i <= lines.len(),
            out@ == join_lines(strs(lines@.take(i as int))),
        decreases lines.len() - i,
    {
        let ghost before = out@;
        if i > 0 {
            out.push('\n');
        }
        push_str(&mut out, lines[i].as_str());
        proof {
            let t = strs(lines@.take(i + 1));
            assert(t.drop_last() =~= strs(lines@.take(i as int)));
            assert(t.last() == lines@[i as int]@);
            if i == 0 {
                assert(t =~= seq![lines@[0]@]);
            }
            assert(out@ =~= join_lines(t));
        }
        i = i + 1;
    }
    assert(lines@.take(lines.len() as int) =~= lines@);
    out
}

/// The priority ranking as a table, best first, with a list of the rows whose
/// usage is unavailable. Without colour the text is exactly `table_lines`
/// joined by newlines; with colour the state column and the current marker
/// are styled.
pub fn render_priority_table(rows: &[PriorityRow], use_color: bool) -> (res: String)
    ensures
        !use_color ==> res@ == join_lines(table_lines(rows@)),
        use_color ==> exists|ls: Seq<Seq<char>>|
            #![trigger join_lines(ls)]
            res@ == join_lines(ls) && colored_table(ls, rows@),
{
    let ghost spec_data = table_cells(rows@);
    // The cells of every row.
    let mut data: Vec<Vec<String>> = Vec::new();
    let mut rank: u64 = 0;
    let mut i: usize = 0;
    while i < rows.len()
        invariant
            i <= rows.len(),
            rank == count_recommendable(rows@.take(i as int)),
            rank <= i,
            spec_data == table_cells(rows@),
            data.len() == i,
            forall|j: int| 0 <= j < i ==> strs((#[trigger] data@[j])@) == spec_data[j],
            forall|j: int| 0 <= j < i ==> (#[trigger] data@[j]).len() == 10,
        decreases rows.len() - i,
    {
        let row = &rows[i];
        assert(rows@.take(i + 1).drop_last() =~= rows@.take(i as int));
        assert(rows@.take(i + 1).last() == rows@[i as int]);
        if row.candidate && matches!(row.state, PriorityState::Ready(_)) {
            rank = rank + 1;
        }
        let cells = row_cell_strings(row, rank);
        data.push(cells);
        i = i + 1;
    }
    assert(cells_view(data@) =~= spec_data);
    // The widths of the columns.
    let heads = header_cells();
    let mut widths: Vec<usize> = Vec::new();
    let mut c: usize = 0;
    while c < 10
        invariant
            c <= 10,
            heads.len() == 10,
            strs(heads@) == headers(),
            widths.len() == c,
            forall|k: int| 0 <= k < c ==> widths@[k] == col_width(spec_data.take(0), k),
        decreases 10 - c,
    {
        assert(heads@[c as int]@ == strs(heads@)[c as int]);
        widths.push(byte_len(heads[c].as_str()));
        c = c + 1;
    }
    let mut r: usize = 0;
    while r < data.len()
        invariant
            r <= data.len(),
            widths.len() == 10,
            cells_view(data@) == spec_data,
            forall|j: int| 0 <= j < data.len() ==> (#[trigger] data@[j]).len() == 10,
            forall|k: int| 0 <= k < 10 ==> widths@[k] == col_width(spec_data.take(r as int), k),
        decreases data.len() - r,
    {
        let ghost wbefore = widths@;
        proof {
            assert(spec_data.take(r + 1).drop_last() =~= spec_data.take(r as int));
            assert(spec_data.take(r + 1).last() == spec_data[r as int]);
            assert(spec_data[r as int] == strs(data@[r as int]@));
        }
        let mut c: usize = 0;
        while c < 10
            invariant
                c <= 10,
                r < data.len(),
                spec_data.len() == data.len(),
                data@[r as int].len() == 10,
                widths.len() == 10,
                spec_data[r as int] == strs(data@[r as int]@),
                spec_data.take(r + 1).drop_last() == spec_data.take(r as int),
                spec_data.take(r + 1).last() == spec_data[r as int],
                forall|k: int| 0 <= k < c ==> widths@[k] == col_width(spec_data.take(r + 1), k),
                forall|k: int| c <= k < 10 ==> widths@[k] == wbefore[k],
                forall|k: int| 0 <= k < 10 ==> wbefore[k] == col_width(spec_data.take(r as int), k),
            decreases 10 - c,
        {
            let ghost cell = data@[r as int]@[c as int]@;
            assert(strs(data@[r as int]@)[c as int] == cell);
            let b = byte_len(data[r][c].as_str());
            proof {
                let t = spec_data.take(r + 1);
                assert(t.len() > 0);
                assert(widths@[c as int] == wbefore[c as int]);
                assert(wbefore[c as int] == col_width(spec_data.take(r as int), c as int));
                assert(t.last()[c as int] == cell);
                assert(col_width(t, c as int) == (if blen(cell) > col_width(t.drop_last(), c as int) {
                    blen(cell)
                } else {
                    col_width(t.drop_last(), c as int)
                }));
            }
            if b > widths[c] {
                widths.set(c, b);
            }
            assert(widths@[c as int] == col_width(spec_data.take(r + 1), c as int));
            c = c + 1;
        }
        r = r + 1;
    }
    assert(spec_data.take(data.len() as int) =~= spec_data);
    let ghost wv = widths_view(widths@);
    assert(wv =~= widths_of(spec_data));
    // The lines.
    let mut lines: Vec<String> = Vec::new();
    lines.push(owned("Priority ranking (best first)"));
    lines.push(format_line(&heads, &widths, false, use_color));
    let mut sep: Vec<String> = Vec::new();
    let mut c: usize = 0;
    while c < 10
        invariant
            c <= 10,
            widths.len() == 10,
            sep.len() == c,
            forall|k: int| 0 <= k < c ==> (#[trigger] sep@[k])@ == Seq::new(widths@[k] as nat, |i: int| '-'),
        decreases 10 - c,
    {
        let mut dash = String::new();
        let mut k: usize = 0;
        while k < widths[c]
            invariant
                k <= widths[c as int],
                c < 10,
                widths.len() == 10,
                dash@ == Seq::new(k as nat, |i: int| '-'),
            decreases widths[c as int] - k,
        {
            dash.push('-');
            k = k + 1;
            assert(dash@ =~= Seq::new(k as nat, |i: int| '-'));
        }
        sep.push(dash);
        c = c + 1;
    }
    let ghost sepv = Seq::new(10, |c: int| Seq::new(wv[c], |i: int| '-'));
    assert(strs(sep@) =~= sepv);
    lines.push(format_line(&sep, &widths, false, use_color));
    let ghost head3 = seq![
        "Priority ranking (best first)"@,
        table_line(headers(), wv),
        table_line(sepv, wv),
    ];
    assert(strs(lines@) =~= head3);
    let mut j: usize = 0;
    while j < data.len()
        invariant
            j <= data.len(),
            data.len() == rows.len(),
            widths.len() == 10,
            cells_view(data@) == spec_data,
            forall|q: int| 0 <= q < data.len() ==> (#[trigger] data@[q]).len() == 10,
            lines.len() == 3 + j,
            !use_color ==> strs(lines@) == head3 + Seq::new(j as nat, |q: int| table_line(spec_data[q], wv)),
            strs(lines@).take(3) == head3,
            use_color ==> forall|q: int|
                0 <= q < j ==> colored_line(#[trigger] strs(lines@)[3 + q], spec_data[q], wv),
            wv == widths_view(widths@),
        decreases data.len() - j,
    {
        let line = format_line(&data[j], &widths, true, use_color);
        proof {
            assert(strs(data@[j as int]@) == spec_data[j as int]);
        }
        let ghost before = lines@;
        let ghost lv = line@;
        lines.push(line);
        proof {
            assert(strs(lines@) =~= strs(before).push(lv));
            assert(strs(lines@).take(3) =~= strs(before).take(3));
            if use_color {
                assert forall|q: int| 0 <= q < j + 1 implies colored_line(
                    #[trigger] strs(lines@)[3 + q],
                    spec_data[q],
                    wv,
                ) by {
                    if q < j {
                        assert(strs(lines@)[3 + q] == strs(before)[3 + q]);
                    }
                }
            }
            if !use_color {
                assert(lv == table_line(spec_data[j as int], wv));
                assert(strs(lines@) =~= head3 + Seq::new((j + 1) as nat, |q: int| table_line(spec_data[q], wv)));
            }
        }
        j = j + 1;
    }
    // The unavailable rows.
    let mut unavailable: Vec<String> = Vec::new();
    let mut q: usize = 0;
    while q < rows.len()
        invariant
            q <= rows.len(),
            strs(unavailable@) == unavailable_lines(rows@.take(q as int)),
        decreases rows.len() - q,
    {
        assert(rows@.take(q + 1).drop_last() =~= rows@.take(q as int));
        assert(rows@.take(q + 1).last() == rows@[q as int]);
        match &rows[q].state {
            PriorityState::Unavailable(reason) => {
                let mut l = owned("- ");
                push_str(&mut l, rows[q].profile_name.as_str());
                push_str(&mut l, ": ");
                push_str(&mut l, reason.as_str());
                unavailable.push(l);
            },
            PriorityState::Ready(_) => {},
        }
        assert(strs(unavailable@) =~= unavailable_lines(rows@.take(q + 1)));
        q = q + 1;
    }
    assert(rows@.take(rows.len() as int) =~= rows@);
    let ghost prefix = strs(lines@);
    if unavailable.len() > 0 {
        lines.push(String::new());
        lines.push(owned("Unavailable profiles"));
        let mut u: usize = 0;
        assert(strs(lines@) =~= prefix + seq![Seq::<char>::empty(), "Unavailable profiles"@]
            + strs(unavailable@).take(0));
        while u < unavailable.len()
            invariant
                u <= unavailable.len(),
                strs(lines@) == prefix + seq![Seq::<char>::empty(), "Unavailable profiles"@]
                    + strs(unavailable@).take(u as int),
            decreases unavailable.len() - u,
        {
            let ghost before = lines@;
            let item = unavailable[u].clone();
            lines.push(item);
            assert(strs(lines@) =~= strs(before).push(unavailable@[u as int]@));
            u = u + 1;
            assert(strs(lines@) =~= prefix + seq![Seq::<char>::empty(), "Unavailable profiles"@]
                + strs(unavailable@).take(u as int));
        }
        assert(strs(unavailable@).take(unavailable.len() as int) =~= strs(unavailable@));
    }
    assert(!use_color ==> strs(lines@) =~= table_lines(rows@));
    proof {
        if use_color {
            let ls = strs(lines@);
            let t = table_lines(rows@);
            let n = rows.len() as int;
            let tail = if strs(unavailable@).len() > 0 {
                seq![Seq::<char>::empty(), "Unavailable profiles"@] + strs(unavailable@)
            } else {
                Seq::<Seq<char>>::empty()
            };
            assert(t =~= head3 + Seq::new(n as nat, |q: int| table_line(spec_data[q], wv)) + tail);
            assert(ls.len() == 3 + n + tail.len());
            assert(ls.skip(3 + n) =~= tail);
            assert forall|i: int| 0 <= i < ls.len() implies if 3 <= i < 3 + rows@.len() {
                colored_line(#[trigger] ls[i], table_cells(rows@)[i - 3], widths_of(table_cells(rows@)))
            } else {
                ls[i] == t[i]
            } by {
                if 3 <= i < 3 + n {
                    assert(colored_line(strs(lines@)[3 + (i - 3)], spec_data[i - 3], wv));
                } else if i < 3 {
                    assert(ls[i] == ls.take(3)[i]);
                } else {
                    assert(ls[i] == ls.skip(3 + n)[i - 3 - n]);
                }
            }
            assert(colored_table(ls, rows@));
        }
    }
    join_newline(&lines)
}

} // verus!
