use vstd::prelude::*;
use vstd::string::StrSliceExecFns;
use crate::buffer::CellBuffer;
use crate::buffer::Rect;
use crate::buffer::in_rect;
use crate::buffer::spec_put;
use crate::buffer::spec_put_symbol;
use crate::buffer::index_in_rect;
use crate::buffer::lemma_put_outside;
use crate::buffer::lemma_put_symbol_outside;
use crate::style::Cell;
use crate::style::Style;

verus! {

// Box-drawing glyphs for the frame, the separators and their junctions.
pub const LINE_HORIZONTAL: char = '─';
pub const LINE_VERTICAL: char = '│';
pub const LINE_TOP_LEFT: char = '┌';
pub const LINE_TOP_RIGHT: char = '┐';
pub const LINE_BOTTOM_LEFT: char = '└';
pub const LINE_BOTTOM_RIGHT: char = '┘';
pub const LINE_VERTICAL_RIGHT: char = '├';
pub const LINE_VERTICAL_LEFT: char = '┤';
pub const LINE_HORIZONTAL_DOWN: char = '┬';
pub const LINE_HORIZONTAL_UP: char = '┴';
pub const LINE_CROSS: char = '┼';

/// One horizontal run: the cell `c` written at every column of line `y`
/// from `x` to the rectangle's right edge.
pub open spec fn spec_fill_row(cells: Seq<Cell>, bw: int, bh: int, r: Rect, y: int, x: int, c: Cell) -> Seq<Cell>
    decreases r.right - x,
{
    if x >= r.right {
        cells
    } else {
        spec_fill_row(spec_put(cells, bw, bh, r, x, y, c), bw, bh, r, y, x + 1, c)
    }
}

/// The rectangle's interior from line `y` down, every cell replaced by `c`.
pub open spec fn spec_fill_rect(cells: Seq<Cell>, bw: int, bh: int, r: Rect, y: int, c: Cell) -> Seq<Cell>
    decreases r.bottom - y,
{
    if y >= r.bottom {
        cells
    } else {
        spec_fill_rect(spec_fill_row(cells, bw, bh, r, y, r.left as int, c), bw, bh, r, y + 1, c)
    }
}

/// A horizontal border line: `─` from `x` to the right edge of line `y`,
/// each keeping the style already beneath it.
pub open spec fn spec_hline(cells: Seq<Cell>, bw: int, bh: int, r: Rect, y: int, x: int) -> Seq<Cell>
    decreases r.right - x,
{
    if x >= r.right {
        cells
    } else {
        spec_hline(spec_put_symbol(cells, bw, bh, r, x, y, LINE_HORIZONTAL), bw, bh, r, y, x + 1)
    }
}

/// The glyph the left border carries at line `y`: a branch where the
/// header separator meets it, a plain vertical elsewhere.
pub open spec fn spec_left_border_glyph(r: Rect, y: int) -> char {
    if y == r.top + 2 {
        LINE_VERTICAL_RIGHT
    } else {
        LINE_VERTICAL
    }
}

/// The glyph the right border carries at line `y`.
pub open spec fn spec_right_border_glyph(r: Rect, y: int) -> char {
    if y == r.top + 2 {
        LINE_VERTICAL_LEFT
    } else {
        LINE_VERTICAL
    }
}

/// Left and right vertical borders from line `y` down: each line gets its
/// border glyphs on the outermost columns.
pub open spec fn spec_borders(cells: Seq<Cell>, bw: int, bh: int, r: Rect, y: int) -> Seq<Cell>
    decreases r.bottom - y,
{
    if y >= r.bottom {
        cells
    } else {
        let s1 = spec_put_symbol(cells, bw, bh, r, r.left as int, y, spec_left_border_glyph(r, y));
        let s2 = spec_put_symbol(s1, bw, bh, r, r.right - 1, y, spec_right_border_glyph(r, y));
        spec_borders(s2, bw, bh, r, y + 1)
    }
}

/// The four frame corners, drawn last so they win over the lines that
/// cross beneath them.
pub open spec fn spec_corners(cells: Seq<Cell>, bw: int, bh: int, r: Rect) -> Seq<Cell> {
    let s1 = spec_put_symbol(cells, bw, bh, r, r.left as int, r.top as int, LINE_TOP_LEFT);
    let s2 = spec_put_symbol(s1, bw, bh, r, r.right - 1, r.top as int, LINE_TOP_RIGHT);
    let s3 = spec_put_symbol(s2, bw, bh, r, r.left as int, r.bottom - 1, LINE_BOTTOM_LEFT);
    spec_put_symbol(s3, bw, bh, r, r.right - 1, r.bottom - 1, LINE_BOTTOM_RIGHT)
}

/// One cell value to display, with or without a style of its own.
///
/// `Data` rows take the table's base style; `StyledData` rows carry an
/// override applied to every cell of that row only.
pub enum Row {
    Data(Vec<String>),
    StyledData(Vec<String>, Style),
}

/// The displayed strings of one row, as character sequences.
pub open spec fn row_values(row: Row) -> Seq<Seq<char>> {
    match row {
        Row::Data(v) => v@.map_values(|s: String| s@),
        Row::StyledData(v, _) => v@.map_values(|s: String| s@),
    }
}

/// The style one row's cells are drawn with.
pub open spec fn row_style(row: Row, base: Style) -> Style {
    match row {
        Row::Data(_) => base,
        Row::StyledData(_, st) => st,
    }
}

pub open spec fn rows_values(rows: Seq<Row>) -> Seq<Seq<Seq<char>>> {
    rows.map_values(|r: Row| row_values(r))
}

pub open spec fn rows_styles(rows: Seq<Row>, base: Style) -> Seq<Style> {
    rows.map_values(|r: Row| row_style(r, base))
}

pub open spec fn texts_views(ts: Seq<String>) -> Seq<Seq<char>> {
    ts.map_values(|s: String| s@)
}

/// One cell value written at `(x, y)` onwards: character `k` of `s` and the
/// following ones, truncated to the column width `w`, styled `st`.
pub open spec fn spec_write_text(cells: Seq<Cell>, bw: int, bh: int, r: Rect, x: int, y: int, s: Seq<char>, k: int, w: int, st: Style) -> Seq<Cell>
    decreases s.len() - k,
{
    if k >= s.len() || k >= w {
        cells
    } else {
        spec_write_text(
            spec_put(cells, bw, bh, r, x + k, y, Cell { symbol: s[k], style: st }),
            bw, bh, r, x, y, s, k + 1, w, st)
    }
}

/// One line of column texts: column `i` and the following ones, each
/// starting one padding cell past its separator, truncated to its resolved
/// width; columns are zipped to the shorter of the width and text lists.
pub open spec fn spec_text_row(cells: Seq<Cell>, bw: int, bh: int, r: Rect, widths: Seq<int>, texts: Seq<Seq<char>>, spacing: int, st: Style, y: int, i: int, x: int) -> Seq<Cell>
    decreases widths.len() - i,
{
    if i >= widths.len() || i >= texts.len() || x >= r.right {
        cells
    } else {
        spec_text_row(
            spec_write_text(cells, bw, bh, r, x + spacing + 1, y, texts[i], 0, widths[i], st),
            bw, bh, r, widths, texts, spacing, st, y, i + 1, x + widths[i] + spacing)
    }
}

/// The junction glyph a column separator carries at line `y`: a down-tee
/// on the top border, an up-tee on the bottom border, a cross where it
/// meets the header separator, a plain vertical elsewhere.
pub open spec fn spec_sep_glyph(r: Rect, y: int) -> char {
    if y == r.top {
        LINE_HORIZONTAL_DOWN
    } else if y == r.bottom - 1 {
        LINE_HORIZONTAL_UP
    } else if y == r.top + 2 {
        LINE_CROSS
    } else {
        LINE_VERTICAL
    }
}

/// One vertical separator at column `x`, from line `y` to the rectangle's
/// bottom, each line carrying its junction glyph.
pub open spec fn spec_vsep(cells: Seq<Cell>, bw: int, bh: int, r: Rect, x: int, y: int) -> Seq<Cell>
    decreases r.bottom - y,
{
    if y >= r.bottom {
        cells
    } else {
        spec_vsep(spec_put_symbol(cells, bw, bh, r, x, y, spec_sep_glyph(r, y)), bw, bh, r, x, y + 1)
    }
}

/// The separators between adjacent columns, from column boundary `i`
/// rightwards; `x` is where column `i` begins, and the separator stands
/// `spacing` cells further right, one cell before the column's text.
pub open spec fn spec_separators(cells: Seq<Cell>, bw: int, bh: int, r: Rect, widths: Seq<int>, spacing: int, i: int, x: int) -> Seq<Cell>
    decreases widths.len() - i,
{
    if i >= widths.len() || x >= r.right {
        cells
    } else {
        spec_separators(
            spec_vsep(cells, bw, bh, r, x + spacing, r.top as int), bw, bh, r, widths, spacing, i + 1, x + widths[i] + spacing)
    }
}

/// How many data rows fit under the top border, the header line and the
/// header separator, keeping the bottom border free.
pub open spec fn spec_row_capacity(r: Rect) -> int {
    if r.bottom - r.top >= 5 {
        r.bottom - r.top - 4
    } else {
        0
    }
}

/// The data rows from index `j` on, one line each starting right under the
/// header separator, rows past the capacity silently dropped.
pub open spec fn spec_rows(cells: Seq<Cell>, bw: int, bh: int, r: Rect, widths: Seq<int>, vals: Seq<Seq<Seq<char>>>, styles: Seq<Style>, spacing: int, j: int) -> Seq<Cell>
    decreases vals.len() - j,
{
    if j >= vals.len() || j >= spec_row_capacity(r) {
        cells
    } else {
        spec_rows(
            spec_text_row(cells, bw, bh, r, widths, vals[j], spacing, styles[j], r.top + 3 + j, 0, r.left as int),
            bw, bh, r, widths, vals, styles, spacing, j + 1)
    }
}

/// Fill line `y` from `x` rightwards with cell `c`.
fn fill_row(buf: &mut CellBuffer, r: Rect, y: u32, c: Cell)
    requires
        old(buf).wf(),
    ensures
        final(buf).wf(),
        final(buf).width == old(buf).width,
        final(buf).height == old(buf).height,
        final(buf).cells@ == spec_fill_row(
            old(buf).cells@, old(buf).width as int, old(buf).height as int, r, y as int, r.left as int, c),
{
    let ghost orig = old(buf).cells@;
    let ghost bw = old(buf).width as int;
    let ghost bh = old(buf).height as int;
    let mut x: u32 = r.left as u32;
    while x < r.right as u32
        invariant
            buf.wf(),
            buf.width as int == bw,
            buf.height as int == bh,
            spec_fill_row(orig, bw, bh, r, y as int, r.left as int, c)
                == spec_fill_row(buf.cells@, bw, bh, r, y as int, x as int, c),
        decreases r.right as int - x as int,
    {
        let ghost before = buf.cells@;
        buf.put(r, x, y, c);
        proof {
            assert(spec_fill_row(before, bw, bh, r, y as int, x as int, c)
                == spec_fill_row(buf.cells@, bw, bh, r, y as int, x as int + 1, c));
        }
        x = x + 1;
    }
    proof {
        assert(spec_fill_row(buf.cells@, bw, bh, r, y as int, x as int, c) == buf.cells@);
    }
}

/// Fill the rectangle's interior with cell `c`.
fn fill_rect(buf: &mut CellBuffer, r: Rect, c: Cell)
    requires
        old(buf).wf(),
    ensures
        final(buf).wf(),
        final(buf).width == old(buf).width,
        final(buf).height == old(buf).height,
        final(buf).cells@ == spec_fill_rect(
            old(buf).cells@, old(buf).width as int, old(buf).height as int, r, r.top as int, c),
{
    let ghost orig = old(buf).cells@;
    let ghost bw = old(buf).width as int;
    let ghost bh = old(buf).height as int;
    let mut y: u32 = r.top as u32;
    while y < r.bottom as u32
        invariant
            buf.wf(),
            buf.width as int == bw,
            buf.height as int == bh,
            spec_fill_rect(orig, bw, bh, r, r.top as int, c)
                == spec_fill_rect(buf.cells@, bw, bh, r, y as int, c),
        decreases r.bottom as int - y as int,
    {
        let ghost before = buf.cells@;
        fill_row(buf, r, y, c);
        proof {
            assert(spec_fill_rect(before, bw, bh, r, y as int, c)
                == spec_fill_rect(buf.cells@, bw, bh, r, y as int + 1, c));
        }
        y = y + 1;
    }
    proof {
        assert(spec_fill_rect(buf.cells@, bw, bh, r, y as int, c) == buf.cells@);
    }
}

/// Draw one horizontal border line across the rectangle at line `y`.
fn hline(buf: &mut CellBuffer, r: Rect, y: u32)
    requires
        old(buf).wf(),
    ensures
        final(buf).wf(),
        final(buf).width == old(buf).width,
        final(buf).height == old(buf).height,
        final(buf).cells@ == spec_hline(
            old(buf).cells@, old(buf).width as int, old(buf).height as int, r, y as int, r.left as int),
{
    let ghost orig = old(buf).cells@;
    let ghost bw = old(buf).width as int;
    let ghost bh = old(buf).height as int;
    let mut x: u32 = r.left as u32;
    while x < r.right as u32
        invariant
            buf.wf(),
            buf.width as int == bw,
            buf.height as int == bh,
            spec_hline(orig, bw, bh, r, y as int, r.left as int)
                == spec_hline(buf.cells@, bw, bh, r, y as int, x as int),
        decreases r.right as int - x as int,
    {
        let ghost before = buf.cells@;
        buf.put_symbol(r, x, y, LINE_HORIZONTAL);
        proof {
            assert(spec_hline(before, bw, bh, r, y as int, x as int)
                == spec_hline(buf.cells@, bw, bh, r, y as int, x as int + 1));
        }
        x = x + 1;
    }
    proof {
        assert(spec_hline(buf.cells@, bw, bh, r, y as int, x as int) == buf.cells@);
    }
}

/// Draw the left and right vertical borders, with branch glyphs where the
/// header separator line meets them.
fn borders(buf: &mut CellBuffer, r: Rect)
    requires
        old(buf).wf(),
    ensures
        final(buf).wf(),
        final(buf).width == old(buf).width,
        final(buf).height == old(buf).height,
        final(buf).cells@ == spec_borders(
            old(buf).cells@, old(buf).width as int, old(buf).height as int, r, r.top as int),
{
    let ghost orig = old(buf).cells@;
    let ghost bw = old(buf).width as int;
    let ghost bh = old(buf).height as int;
    let mut y: u32 = r.top as u32;
    while y < r.bottom as u32
        invariant
            buf.wf(),
            buf.width as int == bw,
            buf.height as int == bh,
            spec_borders(orig, bw, bh, r, r.top as int)
                == spec_borders(buf.cells@, bw, bh, r, y as int),
        decreases r.bottom as int - y as int,
    {
        let ghost before = buf.cells@;
        let left_glyph = if y == r.top as u32 + 2 {
            LINE_VERTICAL_RIGHT
        } else {
            LINE_VERTICAL
        };
        let right_glyph = if y == r.top as u32 + 2 {
            LINE_VERTICAL_LEFT
        } else {
            LINE_VERTICAL
        };
        buf.put_symbol(r, r.left as u32, y, left_glyph);
        if r.right > 0 {
            buf.put_symbol(r, r.right as u32 - 1, y, right_glyph);
        }
        proof {
            if r.right == 0 {
                assert(!in_rect(r, r.right - 1, y as int));
            }
            assert(spec_borders(before, bw, bh, r, y as int)
                == spec_borders(buf.cells@, bw, bh, r, y as int + 1));
        }
        y = y + 1;
    }
    proof {
        assert(spec_borders(buf.cells@, bw, bh, r, y as int) == buf.cells@);
    }
}

/// Write one cell value at `(x, y)`, truncated to the column width `w`.
fn write_text(buf: &mut CellBuffer, r: Rect, x: u32, y: u32, s: &str, w: u16, st: Style)
    requires
        old(buf).wf(),
        x <= 0x40000,
    ensures
        final(buf).wf(),
        final(buf).width == old(buf).width,
        final(buf).height == old(buf).height,
        final(buf).cells@ == spec_write_text(
            old(buf).cells@, old(buf).width as int, old(buf).height as int, r, x as int, y as int, s@, 0, w as int, st),
{
    let ghost orig = old(buf).cells@;
    let ghost bw = old(buf).width as int;
    let ghost bh = old(buf).height as int;
    let n: usize = s.unicode_len();
    let mut k: usize = 0;
    while k < n && k < w as usize
        invariant
            buf.wf(),
            buf.width as int == bw,
            buf.height as int == bh,
            n == s@.len(),
            k <= n,
            k <= w as usize,
            x <= 0x40000,
            spec_write_text(orig, bw, bh, r, x as int, y as int, s@, 0, w as int, st)
                == spec_write_text(buf.cells@, bw, bh, r, x as int, y as int, s@, k as int, w as int, st),
        decreases n - k,
    {
        let c = s.get_char(k);
        let ghost before = buf.cells@;
        buf.put(r, x + k as u32, y, Cell { symbol: c, style: st });
        proof {
            assert(spec_write_text(before, bw, bh, r, x as int, y as int, s@, k as int, w as int, st)
                == spec_write_text(buf.cells@, bw, bh, r, x as int, y as int, s@, k as int + 1, w as int, st));
        }
        k = k + 1;
    }
    proof {
        assert(spec_write_text(buf.cells@, bw, bh, r, x as int, y as int, s@, k as int, w as int, st)
            == buf.cells@);
    }
}

/// Write one line of column texts (the header, or one data row), starting
/// at the rectangle's left edge.
fn text_row(buf: &mut CellBuffer, r: Rect, widths: &Vec<u16>, texts: &Vec<String>, spacing: u16, st: Style, y: u32)
    requires
        old(buf).wf(),
    ensures
        final(buf).wf(),
        final(buf).width == old(buf).width,
        final(buf).height == old(buf).height,
        final(buf).cells@ == spec_text_row(
            old(buf).cells@, old(buf).width as int, old(buf).height as int, r,
            crate::solver::widths_as_ints(widths@), texts_views(texts@), spacing as int, st, y as int, 0, r.left as int),
{
    let ghost orig = old(buf).cells@;
    let ghost bw = old(buf).width as int;
    let ghost bh = old(buf).height as int;
    let ghost ws = crate::solver::widths_as_ints(widths@);
    let ghost ts = texts_views(texts@);
    let mut i: usize = 0;
    let mut x: u32 = r.left as u32;
    while i < widths.len() && i < texts.len() && x < r.right as u32
        invariant
            buf.wf(),
            buf.width as int == bw,
            buf.height as int == bh,
            ws == crate::solver::widths_as_ints(widths@),
            ts == texts_views(texts@),
            i <= widths@.len(),
            spec_text_row(orig, bw, bh, r, ws, ts, spacing as int, st, y as int, 0, r.left as int)
                == spec_text_row(buf.cells@, bw, bh, r, ws, ts, spacing as int, st, y as int, i as int, x as int),
        decreases widths@.len() - i,
    {
        let w = widths[i];
        let ghost before = buf.cells@;
        write_text(buf, r, x + spacing as u32 + 1, y, texts[i].as_str(), w, st);
        proof {
            assert(ts[i as int] == texts@[i as int]@);
            assert(ws[i as int] == w as int);
            assert(spec_text_row(before, bw, bh, r, ws, ts, spacing as int, st, y as int, i as int, x as int)
                == spec_text_row(buf.cells@, bw, bh, r, ws, ts, spacing as int, st, y as int, i as int + 1, x as int + w as int + spacing as int));
        }
        x = x + w as u32 + spacing as u32;
        i = i + 1;
    }
    proof {
        assert(spec_text_row(buf.cells@, bw, bh, r, ws, ts, spacing as int, st, y as int, i as int, x as int)
            == buf.cells@);
    }
}

/// Draw one vertical separator at column `x`, with its junction glyphs.
fn vsep(buf: &mut CellBuffer, r: Rect, x: u32)
    requires
        old(buf).wf(),
    ensures
        final(buf).wf(),
        final(buf).width == old(buf).width,
        final(buf).height == old(buf).height,
        final(buf).cells@ == spec_vsep(
            old(buf).cells@, old(buf).width as int, old(buf).height as int, r, x as int, r.top as int),
{
    let ghost orig = old(buf).cells@;
    let ghost bw = old(buf).width as int;
    let ghost bh = old(buf).height as int;
    let mut y: u32 = r.top as u32;
    while y < r.bottom as u32
        invariant
            buf.wf(),
            buf.width as int == bw,
            buf.height as int == bh,
            spec_vsep(orig, bw, bh, r, x as int, r.top as int)
                == spec_vsep(buf.cells@, bw, bh, r, x as int, y as int),
        decreases r.bottom as int - y as int,
    {
        let glyph = if y == r.top as u32 {
            LINE_HORIZONTAL_DOWN
        } else if y + 1 == r.bottom as u32 {
            LINE_HORIZONTAL_UP
        } else if y == r.top as u32 + 2 {
            LINE_CROSS
        } else {
            LINE_VERTICAL
        };
        let ghost before = buf.cells@;
        buf.put_symbol(r, x, y, glyph);
        proof {
            assert(glyph == spec_sep_glyph(r, y as int));
            assert(spec_vsep(before, bw, bh, r, x as int, y as int)
                == spec_vsep(buf.cells@, bw, bh, r, x as int, y as int + 1));
        }
        y = y + 1;
    }
    proof {
        assert(spec_vsep(buf.cells@, bw, bh, r, x as int, y as int) == buf.cells@);
    }
}

/// Draw the separators between adjacent columns.
fn separators(buf: &mut CellBuffer, r: Rect, widths: &Vec<u16>, spacing: u16)
    requires
        old(buf).wf(),
    ensures
        final(buf).wf(),
        final(buf).width == old(buf).width,
        final(buf).height == old(buf).height,
        final(buf).cells@ == (if widths@.len() >= 1 {
            spec_separators(
                old(buf).cells@, old(buf).width as int, old(buf).height as int, r,
                crate::solver::widths_as_ints(widths@), spacing as int, 1, r.left + widths@[0] + spacing)
        } else {
            old(buf).cells@
        }),
{
    let ghost orig = old(buf).cells@;
    let ghost bw = old(buf).width as int;
    let ghost bh = old(buf).height as int;
    let ghost ws = crate::solver::widths_as_ints(widths@);
    if widths.len() == 0 {
        return ;
    }
    let mut i: usize = 1;
    let mut x: u32 = r.left as u32 + widths[0] as u32 + spacing as u32;
    while i < widths.len() && x < r.right as u32
        invariant
            buf.wf(),
            buf.width as int == bw,
            buf.height as int == bh,
            ws == crate::solver::widths_as_ints(widths@),
            widths@.len() >= 1,
            1 <= i <= widths@.len(),
            spec_separators(orig, bw, bh, r, ws, spacing as int, 1, r.left + widths@[0] + spacing)
                == spec_separators(buf.cells@, bw, bh, r, ws, spacing as int, i as int, x as int),
        decreases widths@.len() - i,
    {
        let ghost before = buf.cells@;
        vsep(buf, r, x + spacing as u32);
        proof {
            assert(ws[i as int] == widths@[i as int] as int);
            assert(spec_separators(before, bw, bh, r, ws, spacing as int, i as int, x as int)
                == spec_separators(buf.cells@, bw, bh, r, ws, spacing as int, i as int + 1, x as int + widths@[i as int] + spacing as int));
        }
        x = x + widths[i] as u32 + spacing as u32;
        i = i + 1;
    }
    proof {
        assert(spec_separators(buf.cells@, bw, bh, r, ws, spacing as int, i as int, x as int)
            == buf.cells@);
    }
}

/// Draw the data rows, up to as many as fit above the bottom border.
fn draw_rows(buf: &mut CellBuffer, r: Rect, widths: &Vec<u16>, rows: &Vec<Row>, spacing: u16, base: Style)
    requires
        old(buf).wf(),
    ensures
        final(buf).wf(),
        final(buf).width == old(buf).width,
        final(buf).height == old(buf).height,
        final(buf).cells@ == spec_rows(
            old(buf).cells@, old(buf).width as int, old(buf).height as int, r,
            crate::solver::widths_as_ints(widths@), rows_values(rows@), rows_styles(rows@, base), spacing as int, 0),
{
    let ghost orig = old(buf).cells@;
    let ghost bw = old(buf).width as int;
    let ghost bh = old(buf).height as int;
    let ghost ws = crate::solver::widths_as_ints(widths@);
    let ghost vals = rows_values(rows@);
    let ghost styles = rows_styles(rows@, base);
    let cap: u32 = if (r.bottom as u32) >= (r.top as u32) + 5 {
        r.bottom as u32 - r.top as u32 - 4
    } else {
        0
    };
    assert(cap as int == spec_row_capacity(r));
    let mut j: usize = 0;
    while j < rows.len() && (j as u32) < cap
        invariant
            buf.wf(),
            buf.width as int == bw,
            buf.height as int == bh,
            ws == crate::solver::widths_as_ints(widths@),
            vals == rows_values(rows@),
            styles == rows_styles(rows@, base),
            j <= rows@.len(),
            j <= cap,
            cap as int == spec_row_capacity(r),
            spec_rows(orig, bw, bh, r, ws, vals, styles, spacing as int, 0)
                == spec_rows(buf.cells@, bw, bh, r, ws, vals, styles, spacing as int, j as int),
        decreases rows@.len() - j,
    {
        let y: u32 = r.top as u32 + 3 + j as u32;
        let ghost before = buf.cells@;
        match &rows[j] {
            Row::Data(cells_of_row) => {
                text_row(buf, r, widths, cells_of_row, spacing, base, y);
                proof {
                    assert(vals[j as int] == row_values(rows@[j as int]));
                    assert(styles[j as int] == row_style(rows@[j as int], base));
                    assert(vals[j as int] == texts_views(cells_of_row@));
                    assert(styles[j as int] == base);
                }
            },
            Row::StyledData(cells_of_row, st) => {
                let row_st = *st;
                text_row(buf, r, widths, cells_of_row, spacing, row_st, y);
                proof {
                    assert(vals[j as int] == row_values(rows@[j as int]));
                    assert(styles[j as int] == row_style(rows@[j as int], base));
                    assert(vals[j as int] == texts_views(cells_of_row@));
                    assert(styles[j as int] == row_st);
                }
            },
        }
        proof {
            assert(spec_rows(before, bw, bh, r, ws, vals, styles, spacing as int, j as int)
                == spec_rows(buf.cells@, bw, bh, r, ws, vals, styles, spacing as int, j as int + 1));
        }
        j = j + 1;
    }
    proof {
        assert(spec_rows(buf.cells@, bw, bh, r, ws, vals, styles, spacing as int, j as int)
            == buf.cells@);
    }
}

/// Draw the four frame corners.
fn corners(buf: &mut CellBuffer, r: Rect)
    requires
        old(buf).wf(),
    ensures
        final(buf).wf(),
        final(buf).width == old(buf).width,
        final(buf).height == old(buf).height,
        final(buf).cells@ == spec_corners(
            old(buf).cells@, old(buf).width as int, old(buf).height as int, r),
{
    let ghost bw = old(buf).width as int;
    let ghost bh = old(buf).height as int;
    buf.put_symbol(r, r.left as u32, r.top as u32, LINE_TOP_LEFT);
    if r.right > 0 {
        buf.put_symbol(r, r.right as u32 - 1, r.top as u32, LINE_TOP_RIGHT);
    }
    if r.bottom > 0 {
        buf.put_symbol(r, r.left as u32, r.bottom as u32 - 1, LINE_BOTTOM_LEFT);
        if r.right > 0 {
            buf.put_symbol(r, r.right as u32 - 1, r.bottom as u32 - 1, LINE_BOTTOM_RIGHT);
        }
    }
    proof {
        if r.right == 0 {
            assert(!in_rect(r, r.right - 1, r.top as int));
            assert(!in_rect(r, r.right - 1, r.bottom - 1));
        }
        if r.bottom == 0 {
            assert(!in_rect(r, r.left as int, r.bottom - 1));
            assert(!in_rect(r, r.right - 1, r.bottom - 1));
        }
    }
}

/// The entire rendered table, as one pure function of the starting grid
/// and the render request: background fill, header text, data rows, the
/// three horizontal lines, the column separators, the vertical borders and
/// the corners, later passes winning where they overlap.
pub open spec fn spec_render(cells: Seq<Cell>, bw: int, bh: int, r: Rect, widths: Seq<int>, header: Seq<Seq<char>>, vals: Seq<Seq<Seq<char>>>, styles: Seq<Style>, base: Style, header_style: Style, spacing: int) -> Seq<Cell> {
    let s1 = spec_fill_rect(cells, bw, bh, r, r.top as int, Cell { symbol: ' ', style: base });
    let s2 = spec_text_row(s1, bw, bh, r, widths, header, spacing, header_style, r.top + 1, 0, r.left as int);
    let s3 = spec_rows(s2, bw, bh, r, widths, vals, styles, spacing, 0);
    let s4 = spec_hline(s3, bw, bh, r, r.top as int, r.left as int);
    let s5 = spec_hline(s4, bw, bh, r, r.top + 2, r.left as int);
    let s6 = if r.bottom >= 1 {
        spec_hline(s5, bw, bh, r, r.bottom - 1, r.left as int)
    } else {
        s5
    };
    let s7 = if widths.len() >= 1 {
        spec_separators(s6, bw, bh, r, widths, spacing, 1, r.left + widths[0] + spacing)
    } else {
        s6
    };
    let s8 = spec_borders(s7, bw, bh, r, r.top as int);
    spec_corners(s8, bw, bh, r)
}

/// Paint one table into the rectangle `r` of `buf`: exactly the passes of
/// `spec_render`, over the resolved widths, the header and the rows.
pub fn render_grid(buf: &mut CellBuffer, r: Rect, widths: &Vec<u16>, header: &Vec<String>, rows: &Vec<Row>, base: Style, header_style: Style, spacing: u16)
    requires
        old(buf).wf(),
    ensures
        final(buf).wf(),
        final(buf).width == old(buf).width,
        final(buf).height == old(buf).height,
        final(buf).cells@ == spec_render(
            old(buf).cells@, old(buf).width as int, old(buf).height as int, r,
            crate::solver::widths_as_ints(widths@), texts_views(header@),
            rows_values(rows@), rows_styles(rows@, base), base, header_style, spacing as int),
{
    fill_rect(buf, r, Cell { symbol: ' ', style: base });
    text_row(buf, r, widths, header, spacing, header_style, r.top as u32 + 1);
    draw_rows(buf, r, widths, rows, spacing, base);
    hline(buf, r, r.top as u32);
    hline(buf, r, r.top as u32 + 2);
    if r.bottom >= 1 {
        hline(buf, r, r.bottom as u32 - 1);
    }
    separators(buf, r, widths, spacing);
    borders(buf, r);
    corners(buf, r);
}

proof fn lemma_fill_row_outside(cells: Seq<Cell>, bw: int, bh: int, r: Rect, y: int, x: int, c: Cell)
    requires
        cells.len() == bw * bh,
    ensures
        spec_fill_row(cells, bw, bh, r, y, x, c).len() == cells.len(),
        forall|k: int| 0 <= k < cells.len() && !index_in_rect(k, bw, r)
            ==> #[trigger] spec_fill_row(cells, bw, bh, r, y, x, c)[k] == cells[k],
    decreases r.right - x,
{
    if x < r.right {
        let mid = spec_put(cells, bw, bh, r, x, y, c);
        lemma_put_outside(cells, bw, bh, r, x, y, c);
        lemma_fill_row_outside(mid, bw, bh, r, y, x + 1, c);
    }
}

proof fn lemma_fill_rect_outside(cells: Seq<Cell>, bw: int, bh: int, r: Rect, y: int, c: Cell)
    requires
        cells.len() == bw * bh,
    ensures
        spec_fill_rect(cells, bw, bh, r, y, c).len() == cells.len(),
        forall|k: int| 0 <= k < cells.len() && !index_in_rect(k, bw, r)
            ==> #[trigger] spec_fill_rect(cells, bw, bh, r, y, c)[k] == cells[k],
    decreases r.bottom - y,
{
    if y < r.bottom {
        let mid = spec_fill_row(cells, bw, bh, r, y, r.left as int, c);
        lemma_fill_row_outside(cells, bw, bh, r, y, r.left as int, c);
        lemma_fill_rect_outside(mid, bw, bh, r, y + 1, c);
    }
}

proof fn lemma_hline_outside(cells: Seq<Cell>, bw: int, bh: int, r: Rect, y: int, x: int)
    requires
        cells.len() == bw * bh,
    ensures
        spec_hline(cells, bw, bh, r, y, x).len() == cells.len(),
        forall|k: int| 0 <= k < cells.len() && !index_in_rect(k, bw, r)
            ==> #[trigger] spec_hline(cells, bw, bh, r, y, x)[k] == cells[k],
    decreases r.right - x,
{
    if x < r.right {
        let mid = spec_put_symbol(cells, bw, bh, r, x, y, LINE_HORIZONTAL);
        lemma_put_symbol_outside(cells, bw, bh, r, x, y, LINE_HORIZONTAL);
        lemma_hline_outside(mid, bw, bh, r, y, x + 1);
    }
}

proof fn lemma_write_text_outside(cells: Seq<Cell>, bw: int, bh: int, r: Rect, x: int, y: int, s: Seq<char>, k0: int, w: int, st: Style)
    requires
        cells.len() == bw * bh,
    ensures
        spec_write_text(cells, bw, bh, r, x, y, s, k0, w, st).len() == cells.len(),
        forall|k: int| 0 <= k < cells.len() && !index_in_rect(k, bw, r)
            ==> #[trigger] spec_write_text(cells, bw, bh, r, x, y, s, k0, w, st)[k] == cells[k],
    decreases s.len() - k0,
{
    if k0 < s.len() && k0 < w {
        let mid = spec_put(cells, bw, bh, r, x + k0, y, Cell { symbol: s[k0], style: st });
        lemma_put_outside(cells, bw, bh, r, x + k0, y, Cell { symbol: s[k0], style: st });
        lemma_write_text_outside(mid, bw, bh, r, x, y, s, k0 + 1, w, st);
    }
}

proof fn lemma_text_row_outside(cells: Seq<Cell>, bw: int, bh: int, r: Rect, widths: Seq<int>, texts: Seq<Seq<char>>, spacing: int, st: Style, y: int, i: int, x: int)
    requires
        cells.len() == bw * bh,
    ensures
        spec_text_row(cells, bw, bh, r, widths, texts, spacing, st, y, i, x).len() == cells.len(),
        forall|k: int| 0 <= k < cells.len() && !index_in_rect(k, bw, r)
            ==> #[trigger] spec_text_row(cells, bw, bh, r, widths, texts, spacing, st, y, i, x)[k] == cells[k],
    decreases widths.len() - i,
{
    if i < widths.len() && i < texts.len() && x < r.right {
        let mid = spec_write_text(cells, bw, bh, r, x + spacing + 1, y, texts[i], 0, widths[i], st);
        lemma_write_text_outside(cells, bw, bh, r, x + spacing + 1, y, texts[i], 0, widths[i], st);
        lemma_text_row_outside(mid, bw, bh, r, widths, texts, spacing, st, y, i + 1, x + widths[i] + spacing);
    }
}

proof fn lemma_vsep_outside(cells: Seq<Cell>, bw: int, bh: int, r: Rect, x: int, y: int)
    requires
        cells.len() == bw * bh,
    ensures
        spec_vsep(cells, bw, bh, r, x, y).len() == cells.len(),
        forall|k: int| 0 <= k < cells.len() && !index_in_rect(k, bw, r)
            ==> #[trigger] spec_vsep(cells, bw, bh, r, x, y)[k] == cells[k],
    decreases r.bottom - y,
{
    if y < r.bottom {
        let mid = spec_put_symbol(cells, bw, bh, r, x, y, spec_sep_glyph(r, y));
        lemma_put_symbol_outside(cells, bw, bh, r, x, y, spec_sep_glyph(r, y));
        lemma_vsep_outside(mid, bw, bh, r, x, y + 1);
    }
}

proof fn lemma_separators_outside(cells: Seq<Cell>, bw: int, bh: int, r: Rect, widths: Seq<int>, spacing: int, i: int, x: int)
    requires
        cells.len() == bw * bh,
    ensures
        spec_separators(cells, bw, bh, r, widths, spacing, i, x).len() == cells.len(),
        forall|k: int| 0 <= k < cells.len() && !index_in_rect(k, bw, r)
            ==> #[trigger] spec_separators(cells, bw, bh, r, widths, spacing, i, x)[k] == cells[k],
    decreases widths.len() - i,
{
    if i < widths.len() && x < r.right {
        let mid = spec_vsep(cells, bw, bh, r, x + spacing, r.top as int);
        lemma_vsep_outside(cells, bw, bh, r, x + spacing, r.top as int);
        lemma_separators_outside(mid, bw, bh, r, widths, spacing, i + 1, x + widths[i] + spacing);
    }
}

proof fn lemma_rows_outside(cells: Seq<Cell>, bw: int, bh: int, r: Rect, widths: Seq<int>, vals: Seq<Seq<Seq<char>>>, styles: Seq<Style>, spacing: int, j: int)
    requires
        cells.len() == bw * bh,
    ensures
        spec_rows(cells, bw, bh, r, widths, vals, styles, spacing, j).len() == cells.len(),
        forall|k: int| 0 <= k < cells.len() && !index_in_rect(k, bw, r)
            ==> #[trigger] spec_rows(cells, bw, bh, r, widths, vals, styles, spacing, j)[k] == cells[k],
    decreases vals.len() - j,
{
    if j < vals.len() && j < spec_row_capacity(r) {
        let mid = spec_text_row(cells, bw, bh, r, widths, vals[j], spacing, styles[j], r.top + 3 + j, 0, r.left as int);
        lemma_text_row_outside(cells, bw, bh, r, widths, vals[j], spacing, styles[j], r.top + 3 + j, 0, r.left as int);
        lemma_rows_outside(mid, bw, bh, r, widths, vals, styles, spacing, j + 1);
    }
}

proof fn lemma_borders_outside(cells: Seq<Cell>, bw: int, bh: int, r: Rect, y: int)
    requires
        cells.len() == bw * bh,
    ensures
        spec_borders(cells, bw, bh, r, y).len() == cells.len(),
        forall|k: int| 0 <= k < cells.len() && !index_in_rect(k, bw, r)
            ==> #[trigger] spec_borders(cells, bw, bh, r, y)[k] == cells[k],
    decreases r.bottom - y,
{
    if y < r.bottom {
        let s1 = spec_put_symbol(cells, bw, bh, r, r.left as int, y, spec_left_border_glyph(r, y));
        lemma_put_symbol_outside(cells, bw, bh, r, r.left as int, y, spec_left_border_glyph(r, y));
        let s2 = spec_put_symbol(s1, bw, bh, r, r.right - 1, y, spec_right_border_glyph(r, y));
        lemma_put_symbol_outside(s1, bw, bh, r, r.right - 1, y, spec_right_border_glyph(r, y));
        lemma_borders_outside(s2, bw, bh, r, y + 1);
    }
}

proof fn lemma_corners_outside(cells: Seq<Cell>, bw: int, bh: int, r: Rect)
    requires
        cells.len() == bw * bh,
    ensures
        spec_corners(cells, bw, bh, r).len() == cells.len(),
        forall|k: int| 0 <= k < cells.len() && !index_in_rect(k, bw, r)
            ==> #[trigger] spec_corners(cells, bw, bh, r)[k] == cells[k],
{
    let s1 = spec_put_symbol(cells, bw, bh, r, r.left as int, r.top as int, LINE_TOP_LEFT);
    lemma_put_symbol_outside(cells, bw, bh, r, r.left as int, r.top as int, LINE_TOP_LEFT);
    let s2 = spec_put_symbol(s1, bw, bh, r, r.right - 1, r.top as int, LINE_TOP_RIGHT);
    lemma_put_symbol_outside(s1, bw, bh, r, r.right - 1, r.top as int, LINE_TOP_RIGHT);
    let s3 = spec_put_symbol(s2, bw, bh, r, r.left as int, r.bottom - 1, LINE_BOTTOM_LEFT);
    lemma_put_symbol_outside(s2, bw, bh, r, r.left as int, r.bottom - 1, LINE_BOTTOM_LEFT);
    lemma_put_symbol_outside(s3, bw, bh, r, r.right - 1, r.bottom - 1, LINE_BOTTOM_RIGHT);
}

/// The renderer never touches a cell outside the rectangle it is given:
/// whatever the rectangle, the constraints, the header and the rows, a
/// point of the buffer that lies outside `r` keeps exactly the cell it
/// held before the render.
pub proof fn lemma_render_preserves_outside(cells: Seq<Cell>, bw: int, bh: int, r: Rect, widths: Seq<int>, header: Seq<Seq<char>>, vals: Seq<Seq<Seq<char>>>, styles: Seq<Style>, base: Style, header_style: Style, spacing: int, x: int, y: int)
    requires
        cells.len() == bw * bh,
        0 <= x < bw,
        0 <= y < bh,
        !in_rect(r, x, y),
    ensures
        spec_render(cells, bw, bh, r, widths, header, vals, styles, base, header_style, spacing).len() == cells.len(),
        spec_render(cells, bw, bh, r, widths, header, vals, styles, base, header_style, spacing)[y * bw + x]
            == cells[y * bw + x],
{
    crate::buffer::lemma_index_in_bounds(bw, bh, x, y);
    let k = y * bw + x;
    vstd::arithmetic::div_mod::lemma_fundamental_div_mod_converse(k, bw, y, x);
    assert(!index_in_rect(k, bw, r));
    let fill_cell = Cell { symbol: ' ', style: base };
    let s1 = spec_fill_rect(cells, bw, bh, r, r.top as int, fill_cell);
    lemma_fill_rect_outside(cells, bw, bh, r, r.top as int, fill_cell);
    let s2 = spec_text_row(s1, bw, bh, r, widths, header, spacing, header_style, r.top + 1, 0, r.left as int);
    lemma_text_row_outside(s1, bw, bh, r, widths, header, spacing, header_style, r.top + 1, 0, r.left as int);
    let s3 = spec_rows(s2, bw, bh, r, widths, vals, styles, spacing, 0);
    lemma_rows_outside(s2, bw, bh, r, widths, vals, styles, spacing, 0);
    let s4 = spec_hline(s3, bw, bh, r, r.top as int, r.left as int);
    lemma_hline_outside(s3, bw, bh, r, r.top as int, r.left as int);
    let s5 = spec_hline(s4, bw, bh, r, r.top + 2, r.left as int);
    lemma_hline_outside(s4, bw, bh, r, r.top + 2, r.left as int);
    let s6 = if r.bottom >= 1 {
        spec_hline(s5, bw, bh, r, r.bottom - 1, r.left as int)
    } else {
        s5
    };
    if r.bottom >= 1 {
        lemma_hline_outside(s5, bw, bh, r, r.bottom - 1, r.left as int);
    }
    let s7 = if widths.len() >= 1 {
        spec_separators(s6, bw, bh, r, widths, spacing, 1, r.left + widths[0] + spacing)
    } else {
        s6
    };
    if widths.len() >= 1 {
        lemma_separators_outside(s6, bw, bh, r, widths, spacing, 1, r.left + widths[0] + spacing);
    }
    let s8 = spec_borders(s7, bw, bh, r, r.top as int);
    lemma_borders_outside(s7, bw, bh, r, r.top as int);
    lemma_corners_outside(s8, bw, bh, r);
}

/// Rendering is a pure function of the request and the starting grid:
/// painting the same request into two equal buffers — a freshly cleared
/// one twice in a row, say — yields identical contents.
pub proof fn lemma_render_deterministic(cells1: Seq<Cell>, cells2: Seq<Cell>, bw: int, bh: int, r: Rect, widths: Seq<int>, header: Seq<Seq<char>>, vals: Seq<Seq<Seq<char>>>, styles: Seq<Style>, base: Style, header_style: Style, spacing: int)
    requires
        cells1 == cells2,
    ensures
        spec_render(cells1, bw, bh, r, widths, header, vals, styles, base, header_style, spacing)
            == spec_render(cells2, bw, bh, r, widths, header, vals, styles, base, header_style, spacing),
{
}

} // verus!
