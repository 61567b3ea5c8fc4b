use vstd::prelude::*;
use crate::style::Cell;
use crate::style::Style;
use crate::style::spec_empty_style;

verus! {

/// The sub-region of the cell buffer a widget may draw within.
///
/// Half-open on the right and bottom: the drawable columns are
/// `left..right` and the drawable lines are `top..bottom`.
#[derive(Clone, Copy, PartialEq, Eq, Structural, Debug)]
pub struct Rect {
    pub left: u16,
    pub top: u16,
    pub right: u16,
    pub bottom: u16,
}

impl Rect {
    /// Number of drawable columns; zero when the bounds are inverted.
    pub open spec fn spec_width(self) -> int {
        if self.right >= self.left {
            self.right - self.left
        } else {
            0
        }
    }

    pub fn width(&self) -> (w: u16)
        ensures
            w as int == self.spec_width(),
    {
        if self.right >= self.left {
            self.right - self.left
        } else {
            0
        }
    }
}

/// Does the point `(x, y)` lie inside the rectangle?
pub open spec fn in_rect(r: Rect, x: int, y: int) -> bool {
    r.left <= x < r.right && r.top <= y < r.bottom
}

/// The cell a freshly cleared buffer holds everywhere.
pub open spec fn spec_blank() -> Cell {
    Cell { symbol: ' ', style: spec_empty_style() }
}

/// One guarded write: replace the cell at `(x, y)` with `c`, but only when
/// the point lies inside both the rectangle and the buffer; anywhere else
/// the grid is left untouched.
pub open spec fn spec_put(cells: Seq<Cell>, bw: int, bh: int, r: Rect, x: int, y: int, c: Cell) -> Seq<Cell> {
    if in_rect(r, x, y) && x < bw && y < bh {
        cells.update(y * bw + x, c)
    } else {
        cells
    }
}

/// Like `spec_put`, but only the symbol changes: the style the cell already
/// carries is kept (border glyphs inherit the background fill's style).
pub open spec fn spec_put_symbol(cells: Seq<Cell>, bw: int, bh: int, r: Rect, x: int, y: int, sym: char) -> Seq<Cell> {
    if in_rect(r, x, y) && x < bw && y < bh {
        cells.update(y * bw + x, Cell { symbol: sym, style: cells[y * bw + x].style })
    } else {
        cells
    }
}

/// Row-major index of an in-bounds point is itself in bounds.
pub proof fn lemma_index_in_bounds(bw: int, bh: int, x: int, y: int)
    requires
        0 <= x < bw,
        0 <= y < bh,
    ensures
        0 <= y * bw + x < bw * bh,
{
    assert(y * bw + x < bw * bh) by (nonlinear_arith)
        requires
            0 <= x < bw,
            0 <= y < bh,
    ;
    assert(y * bw + x >= 0) by (nonlinear_arith)
        requires
            0 <= x,
            0 <= y,
            0 < bw,
    ;
}

/// A grid bounded by `u16` sides holds fewer cells than any `usize` can count.
pub proof fn lemma_grid_size_bound(bw: int, bh: int)
    requires
        0 <= bw <= 0xFFFF,
        0 <= bh <= 0xFFFF,
    ensures
        bw * bh <= 0xFFFF * 0xFFFF,
{
    assert(bw * bh <= 0xFFFF * 0xFFFF) by (nonlinear_arith)
        requires
            0 <= bw <= 0xFFFF,
            0 <= bh <= 0xFFFF,
    ;
}

/// Is `k` the row-major index of a point inside the rectangle?
pub open spec fn index_in_rect(k: int, bw: int, r: Rect) -> bool {
    bw > 0 && in_rect(r, k % bw, k / bw)
}

/// A guarded write never touches a cell whose point lies outside the
/// rectangle.
pub proof fn lemma_put_outside(cells: Seq<Cell>, bw: int, bh: int, r: Rect, x: int, y: int, c: Cell)
    requires
        cells.len() == bw * bh,
    ensures
        spec_put(cells, bw, bh, r, x, y, c).len() == cells.len(),
        forall|k: int| 0 <= k < cells.len() && !index_in_rect(k, bw, r)
            ==> #[trigger] spec_put(cells, bw, bh, r, x, y, c)[k] == cells[k],
{
    if in_rect(r, x, y) && x < bw && y < bh {
        let i = y * bw + x;
        lemma_index_in_bounds(bw, bh, x, y);
        vstd::arithmetic::div_mod::lemma_fundamental_div_mod_converse(i, bw, y, x);
        assert(index_in_rect(i, bw, r));
    }
}

/// As `lemma_put_outside`, for the symbol-only write.
pub proof fn lemma_put_symbol_outside(cells: Seq<Cell>, bw: int, bh: int, r: Rect, x: int, y: int, sym: char)
    requires
        cells.len() == bw * bh,
    ensures
        spec_put_symbol(cells, bw, bh, r, x, y, sym).len() == cells.len(),
        forall|k: int| 0 <= k < cells.len() && !index_in_rect(k, bw, r)
            ==> #[trigger] spec_put_symbol(cells, bw, bh, r, x, y, sym)[k] == cells[k],
{
    if in_rect(r, x, y) && x < bw && y < bh {
        let i = y * bw + x;
        lemma_index_in_bounds(bw, bh, x, y);
        vstd::arithmetic::div_mod::lemma_fundamental_div_mod_converse(i, bw, y, x);
        assert(index_in_rect(i, bw, r));
    }
}

/// A 2-D grid of cells stored row-major, the model of the terminal's
/// visible character/style region.
pub struct CellBuffer {
    pub width: u16,
    pub height: u16,
    pub cells: Vec<Cell>,
}

impl CellBuffer {
    /// The grid holds exactly one cell per `(x, y)` point.
    pub open spec fn wf(self) -> bool {
        self.cells@.len() == self.width * self.height
    }

    /// The cell at `(x, y)`, for contracts and tests.
    pub open spec fn spec_at(self, x: int, y: int) -> Cell {
        self.cells@[y * self.width + x]
    }

    /// A cleared buffer: every cell is a blank with the empty style.
    pub fn new(width: u16, height: u16) -> (b: CellBuffer)
        ensures
            b.wf(),
            b.width == width,
            b.height == height,
            forall|k: int| 0 <= k < b.cells@.len() ==> b.cells@[k] == spec_blank(),
    {
        proof {
            lemma_grid_size_bound(width as int, height as int);
        }
        let n: usize = (width as usize) * (height as usize);
        let mut cells: Vec<Cell> = Vec::new();
        let mut i: usize = 0;
        while i < n
            invariant
                i <= n,
                cells@.len() == i,
                forall|k: int| 0 <= k < i ==> cells@[k] == spec_blank(),
            decreases n - i,
        {
            cells.push(Cell { symbol: ' ', style: Style::default() });
            i = i + 1;
        }
        CellBuffer { width, height, cells }
    }

    /// Read one cell.
    pub fn get(&self, x: u16, y: u16) -> (c: Cell)
        requires
            self.wf(),
            x < self.width,
            y < self.height,
        ensures
            c == self.spec_at(x as int, y as int),
    {
        proof {
            lemma_index_in_bounds(self.width as int, self.height as int, x as int, y as int);
            lemma_grid_size_bound(self.width as int, self.height as int);
        }
        let i: usize = (y as usize) * (self.width as usize) + (x as usize);
        self.cells[i]
    }

    /// Write one cell, guarded: a point outside `r` or outside the buffer
    /// is left untouched.
    pub fn put(&mut self, r: Rect, x: u32, y: u32, c: Cell)
        requires
            old(self).wf(),
        ensures
            final(self).wf(),
            final(self).width == old(self).width,
            final(self).height == old(self).height,
            final(self).cells@ == spec_put(old(self).cells@, old(self).width as int, old(self).height as int, r, x as int, y as int, c),
    {
        if (r.left as u32) <= x && x < (r.right as u32) && (r.top as u32) <= y && y < (r.bottom as u32)
            && x < (self.width as u32) && y < (self.height as u32) {
            proof {
                lemma_index_in_bounds(self.width as int, self.height as int, x as int, y as int);
                lemma_grid_size_bound(self.width as int, self.height as int);
            }
            let i: usize = (y as usize) * (self.width as usize) + (x as usize);
            self.cells.set(i, c);
        }
    }

    /// Write one symbol, keeping the style the cell already carries;
    /// guarded exactly as `put` is.
    pub fn put_symbol(&mut self, r: Rect, x: u32, y: u32, sym: char)
        requires
            old(self).wf(),
        ensures
            final(self).wf(),
            final(self).width == old(self).width,
            final(self).height == old(self).height,
            final(self).cells@ == spec_put_symbol(old(self).cells@, old(self).width as int, old(self).height as int, r, x as int, y as int, sym),
    {
        if (r.left as u32) <= x && x < (r.right as u32) && (r.top as u32) <= y && y < (r.bottom as u32)
            && x < (self.width as u32) && y < (self.height as u32) {
            proof {
                lemma_index_in_bounds(self.width as int, self.height as int, x as int, y as int);
                lemma_grid_size_bound(self.width as int, self.height as int);
            }
            let i: usize = (y as usize) * (self.width as usize) + (x as usize);
            let style = self.cells[i].style;
            self.cells.set(i, Cell { symbol: sym, style });
        }
    }
}

} // verus!
