use vstd::prelude::*;
use crate::buffer::CellBuffer;
use crate::buffer::Rect;
use crate::render::Row;
use crate::render::render_grid;
use crate::render::rows_styles;
use crate::render::rows_values;
use crate::render::spec_render;
use crate::render::texts_views;
use crate::solver::Constraint;
use crate::solver::all_percentages_ok;
use crate::solver::solve_widths;
use crate::solver::spec_solved_widths;
use crate::style::Style;
use crate::style::spec_empty_style;

verus! {

/// A widget that displays data in formatted columns inside a bordered
/// grid.
///
/// Configuration accumulates through the chaining setters; nothing is
/// solved or painted until `draw` is called with a target rectangle and a
/// cell buffer.
pub struct GriddedTable {
    /// Base style for the widget.
    pub style: Style,
    /// Header cells, one per column.
    pub header: Vec<String>,
    /// Style for the header line.
    pub header_style: Style,
    /// Width constraints, one per column.
    pub widths: Vec<Constraint>,
    /// Cells between adjacent columns.
    pub column_spacing: u16,
    /// The data rows, in display order.
    pub rows: Vec<Row>,
}

impl GriddedTable {
    /// Every percentage constraint lies in `0 ..= 100`.
    pub open spec fn wf(self) -> bool {
        all_percentages_ok(self.widths@)
    }

    /// A table over the given header and rows, with no width constraints
    /// yet, the empty style and one cell of column spacing.
    pub fn new(header: Vec<String>, rows: Vec<Row>) -> (t: GriddedTable)
        ensures
            t.wf(),
            t.header == header,
            t.rows == rows,
            t.widths@.len() == 0,
            t.style == spec_empty_style(),
            t.header_style == spec_empty_style(),
            t.column_spacing == 1u16,
    {
        GriddedTable {
            style: Style::default(),
            header,
            header_style: Style::default(),
            widths: Vec::new(),
            column_spacing: 1,
            rows,
        }
    }

    /// Replace the header cells.
    pub fn header(self, header: Vec<String>) -> (t: GriddedTable)
        ensures
            t == (GriddedTable { header, ..self }),
    {
        GriddedTable { header, ..self }
    }

    /// Set the header line's style.
    pub fn header_style(self, style: Style) -> (t: GriddedTable)
        ensures
            t == (GriddedTable { header_style: style, ..self }),
    {
        GriddedTable { header_style: style, ..self }
    }

    /// Set the width constraints, one per column. Percentages must lie in
    /// `0 ..= 100`; a configuration that breaks that is rejected before
    /// any rendering work begins.
    pub fn widths(self, widths: Vec<Constraint>) -> (t: GriddedTable)
        requires
            all_percentages_ok(widths@),
        ensures
            t == (GriddedTable { widths, ..self }),
            t.wf(),
    {
        GriddedTable { widths, ..self }
    }

    /// Replace the data rows.
    pub fn rows(self, rows: Vec<Row>) -> (t: GriddedTable)
        ensures
            t == (GriddedTable { rows, ..self }),
    {
        GriddedTable { rows, ..self }
    }

    /// Set the base style.
    pub fn style(self, style: Style) -> (t: GriddedTable)
        ensures
            t == (GriddedTable { style, ..self }),
    {
        GriddedTable { style, ..self }
    }

    /// Set the number of cells between adjacent columns.
    pub fn column_spacing(self, spacing: u16) -> (t: GriddedTable)
        ensures
            t == (GriddedTable { column_spacing: spacing, ..self }),
    {
        GriddedTable { column_spacing: spacing, ..self }
    }

    /// Resolve the column widths against the rectangle's width and paint
    /// the table into `buf`: exactly `spec_render` over the solved widths,
    /// and nothing outside `area` is touched.
    pub fn draw(&self, area: Rect, buf: &mut CellBuffer)
        requires
            old(buf).wf(),
        ensures
            final(buf).wf(),
            final(buf).width == old(buf).width,
            final(buf).height == old(buf).height,
            final(buf).cells@ == spec_render(
                old(buf).cells@, old(buf).width as int, old(buf).height as int, area,
                spec_solved_widths(self.widths@, area.spec_width(), self.column_spacing as int),
                texts_views(self.header@), rows_values(self.rows@),
                rows_styles(self.rows@, self.style), self.style, self.header_style,
                self.column_spacing as int),
    {
        let solved = solve_widths(&self.widths, area.width(), self.column_spacing);
        render_grid(buf, area, &solved, &self.header, &self.rows, self.style, self.header_style, self.column_spacing);
    }
}

impl Default for GriddedTable {
    /// An empty table: no header, no rows, no constraints, the empty
    /// style and one cell of column spacing.
    fn default() -> (t: GriddedTable)
        ensures
            t.wf(),
            t.header@.len() == 0,
            t.rows@.len() == 0,
            t.widths@.len() == 0,
            t.style == spec_empty_style(),
            t.header_style == spec_empty_style(),
            t.column_spacing == 1u16,
    {
        GriddedTable {
            style: Style::default(),
            header: Vec::new(),
            header_style: Style::default(),
            widths: Vec::new(),
            column_spacing: 1,
            rows: Vec::new(),
        }
    }
}

} // verus!
