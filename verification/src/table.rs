//! The table layout engine: column names and rows become an aligned
//! ASCII table, or a fixed three-line block when there are no rows.
//!
//! Widths are measured in characters, not bytes, so non-ASCII names and
//! values still line up. Every cell is rendered by the value renderer
//! (`null` for an absent value) and padded to its column's width, which
//! is the widest of the column's display name and all its cells.
use crate::fmt::{null_text, render_opt};
use crate::text::{push_repeat, repeat_char};
use crate::value::Value;
use vstd::prelude::*;
use vstd::string::*;

verus! {

/// The width of one column: the character count of its display name,
/// widened to the longest rendered cell of that column.
pub open spec fn col_width(name: Seq<char>, rows: Seq<Vec<Option<Value>>>, j: int) -> nat
    decreases rows.len(),
{
    if rows.len() == 0 {
        name.len()
    } else {
        let prev = col_width(name, rows.drop_last(), j);
        let cur = render_opt(rows.last()@[j]).len();
        if cur > prev {
            cur
        } else {
            prev
        }
    }
}

/// The per-column widths of a result set.
pub open spec fn widths(names: Seq<String>, rows: Seq<Vec<Option<Value>>>) -> Seq<nat> {
    Seq::new(names.len(), |j: int| col_width(names[j]@, rows, j))
}

/// A cell's text left-padded with spaces to the column width.
pub open spec fn padded(s: Seq<char>, w: nat) -> Seq<char> {
    if s.len() >= w {
        s
    } else {
        repeat_char(' ', (w - s.len()) as nat) + s
    }
}

/// The cells of one table line: each preceded by `| `, padded to its
/// column's width and followed by one space.
pub open spec fn line_cells(texts: Seq<Seq<char>>, ws: Seq<nat>) -> Seq<char>
    decreases texts.len(),
{
    if texts.len() == 0 {
        Seq::empty()
    } else {
        line_cells(texts.drop_last(), ws.drop_last()) + seq!['|', ' '] + padded(
            texts.last(),
            ws.last(),
        ) + seq![' ']
    }
}

/// One full table line: its cells, `|` immediately after the last
/// column's trailing space, and a newline.
pub open spec fn table_line(texts: Seq<Seq<char>>, ws: Seq<nat>) -> Seq<char> {
    line_cells(texts, ws) + seq!['|', '\n']
}

/// The separator cells: per column `+-`, one dash per width unit, and
/// one more dash.
pub open spec fn sep_cells(ws: Seq<nat>) -> Seq<char>
    decreases ws.len(),
{
    if ws.len() == 0 {
        Seq::empty()
    } else {
        sep_cells(ws.drop_last()) + seq!['+', '-'] + repeat_char('-', ws.last()) + seq!['-']
    }
}

/// The full separator line: the cells joined with no extra character,
/// `+` immediately after the last column's block, and a newline.
pub open spec fn sep_line(ws: Seq<nat>) -> Seq<char> {
    sep_cells(ws) + seq!['+', '\n']
}

/// The rendered texts of one row's cells.
pub open spec fn row_texts(row: Seq<Option<Value>>) -> Seq<Seq<char>> {
    Seq::new(row.len(), |j: int| render_opt(row[j]))
}

/// The views of a sequence of strings.
pub open spec fn str_texts(texts: Seq<String>) -> Seq<Seq<char>> {
    Seq::new(texts.len(), |j: int| texts[j]@)
}

/// A sequence of machine widths as mathematical widths.
pub open spec fn ws_nats(ws: Seq<usize>) -> Seq<nat> {
    Seq::new(ws.len(), |j: int| ws[j] as nat)
}

/// The body of the table: one line per row, in order.
pub open spec fn body_lines(rows: Seq<Vec<Option<Value>>>, ws: Seq<nat>) -> Seq<char>
    decreases rows.len(),
{
    if rows.len() == 0 {
        Seq::empty()
    } else {
        body_lines(rows.drop_last(), ws) + table_line(row_texts(rows.last()@), ws)
    }
}

/// The fixed block shown for a result with no rows: a blank line,
/// `Empty Result Set`, a blank line.
pub open spec fn empty_block() -> Seq<char> {
    seq!['\n', 'E', 'm', 'p', 't', 'y', ' ', 'R', 'e', 's', 'u', 'l', 't', ' ', 'S', 'e', 't',
        '\n', '\n']
}

/// The complete text block for a result set: the aligned table framed
/// by one leading and one trailing blank line, or the fixed
/// empty-result block when there are no rows.
pub open spec fn table_text(names: Seq<String>, rows: Seq<Vec<Option<Value>>>) -> Seq<char> {
    if rows.len() == 0 {
        empty_block()
    } else {
        seq!['\n'] + table_line(str_texts(names), widths(names, rows)) + sep_line(
            widths(names, rows),
        ) + body_lines(rows, widths(names, rows)) + seq!['\n']
    }
}

/// A column is always at least as wide as its display name.
pub proof fn lemma_width_fits_name(name: Seq<char>, rows: Seq<Vec<Option<Value>>>, j: int)
    ensures
        col_width(name, rows, j) >= name.len(),
    decreases rows.len(),
{
    if rows.len() > 0 {
        lemma_width_fits_name(name, rows.drop_last(), j);
    }
}

/// A column is always at least as wide as any one of its rendered
/// cells.
pub proof fn lemma_width_fits_cell(
    name: Seq<char>,
    rows: Seq<Vec<Option<Value>>>,
    j: int,
    i: int,
)
    requires
        0 <= i < rows.len(),
    ensures
        col_width(name, rows, j) >= render_opt(rows[i]@[j]).len(),
    decreases rows.len(),
{
    if i < rows.len() - 1 {
        lemma_width_fits_cell(name, rows.drop_last(), j, i);
    }
}

/// Taking one more row into account widens a column to that row's cell
/// if the cell is longer.
proof fn lemma_col_width_extend(name: Seq<char>, rows: Seq<Vec<Option<Value>>>, j: int, i: int)
    requires
        0 <= i < rows.len(),
    ensures
        col_width(name, rows.take(i + 1), j) == ({
            let prev = col_width(name, rows.take(i), j);
            let cur = render_opt(rows[i]@[j]).len();
            if cur > prev {
                cur
            } else {
                prev
            }
        }),
{
    let t = rows.take(i + 1);
    assert(t.drop_last() =~= rows.take(i));
    assert(t.last() == rows[i]);
}

/// The cell-by-cell extension step of one table line.
proof fn lemma_line_cells_extend(texts: Seq<Seq<char>>, ws: Seq<nat>, j: int)
    requires
        0 <= j < texts.len(),
        texts.len() == ws.len(),
    ensures
        line_cells(texts.take(j + 1), ws.take(j + 1)) == line_cells(texts.take(j), ws.take(j))
            + seq!['|', ' '] + padded(texts[j], ws[j]) + seq![' '],
{
    let t = texts.take(j + 1);
    let w = ws.take(j + 1);
    assert(t.drop_last() =~= texts.take(j));
    assert(w.drop_last() =~= ws.take(j));
    assert(t.last() == texts[j]);
    assert(w.last() == ws[j]);
}

/// The column-by-column extension step of the separator line.
proof fn lemma_sep_cells_extend(ws: Seq<nat>, j: int)
    requires
        0 <= j < ws.len(),
    ensures
        sep_cells(ws.take(j + 1)) == sep_cells(ws.take(j)) + seq!['+', '-'] + repeat_char(
            '-',
            ws[j],
        ) + seq!['-'],
{
    let w = ws.take(j + 1);
    assert(w.drop_last() =~= ws.take(j));
    assert(w.last() == ws[j]);
}

/// The row-by-row extension step of the table body.
proof fn lemma_body_lines_extend(rows: Seq<Vec<Option<Value>>>, ws: Seq<nat>, i: int)
    requires
        0 <= i < rows.len(),
    ensures
        body_lines(rows.take(i + 1), ws) == body_lines(rows.take(i), ws) + table_line(
            row_texts(rows[i]@),
            ws,
        ),
{
    let t = rows.take(i + 1);
    assert(t.drop_last() =~= rows.take(i));
    assert(t.last() == rows[i]);
}

/// The length of the cell section of a line: each column contributes
/// its width plus three frame characters.
pub(crate) open spec fn cells_len(ws: Seq<nat>) -> nat
    decreases ws.len(),
{
    if ws.len() == 0 {
        0
    } else {
        cells_len(ws.drop_last()) + ws.last() + 3
    }
}

/// When every text fits its column, a line's cell section is as long as
/// the widths dictate, independently of the texts themselves.
proof fn lemma_line_cells_len(texts: Seq<Seq<char>>, ws: Seq<nat>)
    requires
        texts.len() == ws.len(),
        forall|j: int| 0 <= j < texts.len() ==> (#[trigger] texts[j]).len() <= ws[j],
    ensures
        line_cells(texts, ws).len() == cells_len(ws),
    decreases texts.len(),
{
    if texts.len() > 0 {
        lemma_line_cells_len(texts.drop_last(), ws.drop_last());
    }
}

/// The separator's cell section is as long as any padded line's.
proof fn lemma_sep_cells_len(ws: Seq<nat>)
    ensures
        sep_cells(ws).len() == cells_len(ws),
    decreases ws.len(),
{
    if ws.len() > 0 {
        lemma_sep_cells_len(ws.drop_last());
    }
}

/// Every line of a non-empty table is equally long: names and cells are
/// padded to shared column widths, measured in characters rather than
/// bytes, so the borders align whatever script the text is written in.
pub proof fn lemma_layout_aligned(names: Seq<String>, rows: Seq<Vec<Option<Value>>>)
    requires
        rows.len() > 0,
        forall|i: int| 0 <= i < rows.len() ==> (#[trigger] rows[i])@.len() == names.len(),
    ensures
        sep_line(widths(names, rows)).len() == table_line(
            str_texts(names),
            widths(names, rows),
        ).len(),
        forall|i: int|
            0 <= i < rows.len() ==> (#[trigger] table_line(
                row_texts(rows[i]@),
                widths(names, rows),
            )).len() == table_line(str_texts(names), widths(names, rows)).len(),
{
    let gws = widths(names, rows);
    assert forall|j: int| 0 <= j < names.len() implies (#[trigger] str_texts(names)[j]).len()
        <= gws[j] by {
        lemma_width_fits_name(names[j]@, rows, j);
    }
    lemma_line_cells_len(str_texts(names), gws);
    lemma_sep_cells_len(gws);
    assert forall|i: int| 0 <= i < rows.len() implies (#[trigger] table_line(
        row_texts(rows[i]@),
        gws,
    )).len() == table_line(str_texts(names), gws).len() by {
        assert forall|j: int| 0 <= j < rows[i]@.len() implies (#[trigger] row_texts(
            rows[i]@,
        )[j]).len() <= gws[j] by {
            lemma_width_fits_cell(names[j]@, rows, j, i);
        }
        lemma_line_cells_len(row_texts(rows[i]@), gws);
    }
}

/// A result with no rows yields exactly the fixed three-line
/// empty-result block, whatever columns were declared.
pub proof fn lemma_empty_result(names: Seq<String>, rows: Seq<Vec<Option<Value>>>)
    requires
        rows.len() == 0,
    ensures
        table_text(names, rows) == empty_block(),
{
}

/// An absent cell renders as `null` and takes part in width computation
/// exactly like any present cell: its column is at least four
/// characters wide.
pub proof fn lemma_null_cell_width(name: Seq<char>, rows: Seq<Vec<Option<Value>>>, j: int, i: int)
    requires
        0 <= i < rows.len(),
        rows[i]@[j] is None,
    ensures
        render_opt(rows[i]@[j]) == null_text(),
        col_width(name, rows, j) >= 4,
{
    lemma_width_fits_cell(name, rows, j, i);
}

/// Renders every cell of every row once, keeping the row shape.
#[verifier::loop_isolation(false)]
fn render_grid(rows: &Vec<Vec<Option<Value>>>) -> (grid: Vec<Vec<String>>)
    ensures
        grid@.len() == rows@.len(),
        forall|i: int| 0 <= i < rows@.len() ==> (#[trigger] grid@[i])@.len() == rows@[i]@.len(),
        forall|i: int, j: int|
            0 <= i < rows@.len() && 0 <= j < rows@[i]@.len() ==> (#[trigger] grid@[i]@[j])@
                == render_opt(rows@[i]@[j]),
{
    let mut grid: Vec<Vec<String>> = Vec::new();
    let nrows: usize = rows.len();
    for i in 0..nrows
        invariant
            grid@.len() == i,
            forall|a: int| 0 <= a < i ==> (#[trigger] grid@[a])@.len() == rows@[a]@.len(),
            forall|a: int, b: int|
                0 <= a < i && 0 <= b < rows@[a]@.len() ==> (#[trigger] grid@[a]@[b])@
                    == render_opt(rows@[a]@[b]),
    {
        let row = &rows[i];
        let m: usize = row.len();
        let mut line: Vec<String> = Vec::new();
        for j in 0..m
            invariant
                line@.len() == j,
                forall|b: int|
                    0 <= b < j ==> (#[trigger] line@[b])@ == render_opt(rows@[i as int]@[b]),
        {
            line.push(crate::fmt::fmt_opt(&row[j]));
        }
        grid.push(line);
    }
    grid
}

/// Computes each column's width: the name's character count, widened to
/// the longest rendered cell of the column.
#[verifier::loop_isolation(false)]
fn compute_widths(names: &Vec<String>, rows: &Vec<Vec<Option<Value>>>, grid: &Vec<Vec<String>>) -> (ws: Vec<
    usize,
>)
    requires
        grid@.len() == rows@.len(),
        forall|i: int| 0 <= i < rows@.len() ==> (#[trigger] rows@[i])@.len() == names@.len(),
        forall|i: int| 0 <= i < rows@.len() ==> (#[trigger] grid@[i])@.len() == rows@[i]@.len(),
        forall|i: int, j: int|
            0 <= i < rows@.len() && 0 <= j < rows@[i]@.len() ==> (#[trigger] grid@[i]@[j])@
                == render_opt(rows@[i]@[j]),
    ensures
        ws@.len() == names@.len(),
        ws_nats(ws@) == widths(names@, rows@),
{
    let ncols: usize = names.len();
    let nrows: usize = rows.len();
    let mut ws: Vec<usize> = Vec::new();
    for j in 0..ncols
        invariant
            ws@.len() == j,
            forall|k: int| 0 <= k < j ==> (#[trigger] ws@[k]) as nat == names@[k]@.len(),
    {
        ws.push(names[j].as_str().unicode_len());
    }
    for j in 0..ncols
        invariant
            ws@.len() == ncols,
            forall|k: int| 0 <= k < j ==> (#[trigger] ws@[k]) as nat == widths(names@, rows@)[k],
            forall|k: int| j <= k < ncols ==> (#[trigger] ws@[k]) as nat == names@[k]@.len(),
    {
        proof {
            assert(rows@.take(0) =~= Seq::<Vec<Option<Value>>>::empty());
        }
        for i in 0..nrows
            invariant
                ws@.len() == ncols,
                ws@[j as int] as nat == col_width(
                    names@[j as int]@,
                    rows@.take(i as int),
                    j as int,
                ),
                forall|k: int|
                    0 <= k < j ==> (#[trigger] ws@[k]) as nat == widths(names@, rows@)[k],
                forall|k: int| j < k < ncols ==> (#[trigger] ws@[k]) as nat == names@[k]@.len(),
        {
            let l: usize = grid[i][j].as_str().unicode_len();
            if l > ws[j] {
                ws.set(j, l);
            }
            proof {
                lemma_col_width_extend(names@[j as int]@, rows@, j as int, i as int);
            }
        }
        proof {
            assert(rows@.take(nrows as int) =~= rows@);
        }
    }
    proof {
        assert(ws_nats(ws@) =~= widths(names@, rows@));
    }
    ws
}

/// Appends one table line: each text behind `| `, left-padded with
/// spaces to its column's width and followed by one space, the line
/// closed by `|` and a newline.
#[verifier::loop_isolation(false)]
fn push_line(texts: &Vec<String>, ws: &Vec<usize>, into: &mut String)
    requires
        texts@.len() == ws@.len(),
        forall|j: int| 0 <= j < texts@.len() ==> (#[trigger] texts@[j])@.len() <= ws@[j],
    ensures
        final(into)@ == old(into)@ + table_line(str_texts(texts@), ws_nats(ws@)),
{
    let ghost gts: Seq<Seq<char>> = str_texts(texts@);
    let ghost gws: Seq<nat> = ws_nats(ws@);
    proof {
        reveal_strlit("| ");
        reveal_strlit(" ");
        reveal_strlit("|\n");
        assert("| "@ =~= seq!['|', ' ']);
        assert(" "@ =~= seq![' ']);
        assert("|\n"@ =~= seq!['|', '\n']);
        assert(gts.take(0) =~= Seq::<Seq<char>>::empty());
        assert(gws.take(0) =~= Seq::<nat>::empty());
    }
    let n: usize = texts.len();
    for j in 0..n
        invariant
            into@ == old(into)@ + line_cells(gts.take(j as int), gws.take(j as int)),
    {
        into.append("| ");
        let l: usize = texts[j].as_str().unicode_len();
        push_repeat(" ", ws[j] - l, into);
        into.append(texts[j].as_str());
        into.append(" ");
        proof {
            lemma_line_cells_extend(gts, gws, j as int);
            assert(padded(gts[j as int], gws[j as int]) =~= repeat_char(
                ' ',
                (gws[j as int] - gts[j as int].len()) as nat,
            ) + gts[j as int]);
            assert(into@ =~= old(into)@ + line_cells(gts.take(j + 1), gws.take(j + 1)));
        }
    }
    into.append("|\n");
    proof {
        assert(gts.take(n as int) =~= gts);
        assert(gws.take(n as int) =~= gws);
        assert(final(into)@ =~= old(into)@ + table_line(gts, gws));
    }
}

/// Appends the separator line for the given column widths.
#[verifier::loop_isolation(false)]
fn push_sep(ws: &Vec<usize>, into: &mut String)
    ensures
        final(into)@ == old(into)@ + sep_line(ws_nats(ws@)),
{
    let ghost gws: Seq<nat> = ws_nats(ws@);
    proof {
        reveal_strlit("+-");
        reveal_strlit("-");
        reveal_strlit("+\n");
        assert("+-"@ =~= seq!['+', '-']);
        assert("-"@ =~= seq!['-']);
        assert("+\n"@ =~= seq!['+', '\n']);
        assert(gws.take(0) =~= Seq::<nat>::empty());
    }
    let n: usize = ws.len();
    for j in 0..n
        invariant
            into@ == old(into)@ + sep_cells(gws.take(j as int)),
    {
        into.append("+-");
        push_repeat("-", ws[j], into);
        into.append("-");
        proof {
            lemma_sep_cells_extend(gws, j as int);
            assert(into@ =~= old(into)@ + sep_cells(gws.take(j + 1)));
        }
    }
    into.append("+\n");
    proof {
        assert(gws.take(n as int) =~= gws);
        assert(final(into)@ =~= old(into)@ + sep_line(gws));
    }
}

/// Lays a result set out as text: the aligned table, or the fixed
/// empty-result block when there are no rows. Every row must carry
/// exactly one cell per declared column.
#[verifier::loop_isolation(false)]
#[verifier::rlimit(100)]
pub fn layout(names: &Vec<String>, rows: &Vec<Vec<Option<Value>>>) -> (out: String)
    requires
        forall|i: int| 0 <= i < rows@.len() ==> (#[trigger] rows@[i])@.len() == names@.len(),
    ensures
        out@ == table_text(names@, rows@),
{
    if rows.len() == 0 {
        let out: String = "\nEmpty Result Set\n\n".to_owned();
        proof {
            reveal_strlit("\nEmpty Result Set\n\n");
            assert(out@ =~= empty_block());
        }
        return out;
    }
    let ghost gws: Seq<nat> = widths(names@, rows@);
    let grid: Vec<Vec<String>> = render_grid(rows);
    let ws: Vec<usize> = compute_widths(names, rows, &grid);
    let mut out = String::new();
    out.append("\n");
    proof {
        reveal_strlit("\n");
        assert("\n"@ =~= seq!['\n']);
        assert forall|j: int| 0 <= j < names@.len() implies (#[trigger] names@[j])@.len()
            <= ws@[j] by {
            assert(ws_nats(ws@)[j] == ws@[j] as nat);
            assert(widths(names@, rows@)[j] == col_width(names@[j]@, rows@, j));
            lemma_width_fits_name(names@[j]@, rows@, j);
        }
    }
    push_line(names, &ws, &mut out);
    push_sep(&ws, &mut out);
    proof {
        assert(rows@.take(0) =~= Seq::<Vec<Option<Value>>>::empty());
        assert(ws_nats(ws@) == gws);
        assert(out@ =~= seq!['\n'] + table_line(str_texts(names@), gws) + sep_line(gws)
            + body_lines(rows@.take(0), gws));
    }
    let ghost after_sep: Seq<char> = out@;
    let nrows: usize = rows.len();
    for i in 0..nrows
        invariant
            out@ == after_sep + body_lines(rows@.take(i as int), gws),
    {
        proof {
            assert forall|j: int| 0 <= j < grid@[i as int]@.len() implies (#[trigger] grid@[
                i as int
            ]@[j])@.len() <= ws@[j] by {
                assert(ws_nats(ws@)[j] == ws@[j] as nat);
                assert(widths(names@, rows@)[j] == col_width(names@[j]@, rows@, j));
                lemma_width_fits_cell(names@[j]@, rows@, j, i as int);
            }
        }
        push_line(&grid[i], &ws, &mut out);
        proof {
            lemma_body_lines_extend(rows@, gws, i as int);
            assert(str_texts(grid@[i as int]@) =~= row_texts(rows@[i as int]@));
            assert(out@ =~= after_sep + body_lines(rows@.take(i + 1), gws));
        }
    }
    out.append("\n");
    proof {
        assert(rows@.take(nrows as int) =~= rows@);
        assert(out@ =~= table_text(names@, rows@));
    }
    out
}

} // verus!
