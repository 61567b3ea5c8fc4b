use gridded_table::buffer::CellBuffer;
use gridded_table::buffer::Rect;
use gridded_table::render::Row;
use gridded_table::solver::Constraint;
use gridded_table::style::Cell;
use gridded_table::style::Color;
use gridded_table::style::Style;
use gridded_table::table::GriddedTable;

fn rect(left: u16, top: u16, right: u16, bottom: u16) -> Rect {
    Rect { left, top, right, bottom }
}

fn strings(vals: &[&str]) -> Vec<String> {
    vals.iter().map(|s| s.to_string()).collect()
}

/// The symbols of line `y` between `x0` and `x1` (exclusive), as a string.
fn line_of(buf: &CellBuffer, y: u16, x0: u16, x1: u16) -> String {
    let mut out = String::new();
    let mut x = x0;
    while x < x1 {
        out.push(buf.get(x, y).symbol);
        x += 1;
    }
    out
}

fn city_table() -> GriddedTable {
    let header = strings(&["City", "State", "Population"]);
    let rows = vec![
        Row::Data(strings(&["Dallas", "TX", "1300000"])),
        Row::Data(strings(&["Boston", "MA", "675000"])),
    ];
    let widths = vec![
        Constraint::Length(10),
        Constraint::Length(10),
        Constraint::Length(10),
    ];
    GriddedTable::new(header, rows).widths(widths)
}

#[test]
fn scenario_city_header_layout() {
    let mut buf = CellBuffer::new(40, 8);
    city_table().draw(rect(0, 0, 40, 8), &mut buf);

    // Each column resolves to 10 cells; the text starts two cells past the
    // column's start (separator plus padding), on the line under the top
    // border.
    assert_eq!(line_of(&buf, 1, 2, 12), "City      ");
    assert_eq!(line_of(&buf, 1, 13, 23), "State     ");
    assert_eq!(line_of(&buf, 1, 24, 34), "Population");
}

#[test]
fn scenario_city_frame_and_junctions() {
    let mut buf = CellBuffer::new(40, 8);
    city_table().draw(rect(0, 0, 40, 8), &mut buf);

    // Corners.
    assert_eq!(buf.get(0, 0).symbol, '┌');
    assert_eq!(buf.get(39, 0).symbol, '┐');
    assert_eq!(buf.get(0, 7).symbol, '└');
    assert_eq!(buf.get(39, 7).symbol, '┘');

    // The header separator line and its branches into the borders.
    assert_eq!(buf.get(0, 2).symbol, '├');
    assert_eq!(buf.get(39, 2).symbol, '┤');
    assert_eq!(buf.get(20, 2).symbol, '─');
    assert_eq!(buf.get(20, 0).symbol, '─');
    assert_eq!(buf.get(20, 7).symbol, '─');

    // Column separators stand one cell before each column's text and meet
    // the horizontal lines in the right junction glyphs.
    for sep_x in [12u16, 23u16] {
        assert_eq!(buf.get(sep_x, 0).symbol, '┬');
        assert_eq!(buf.get(sep_x, 2).symbol, '┼');
        assert_eq!(buf.get(sep_x, 7).symbol, '┴');
        assert_eq!(buf.get(sep_x, 4).symbol, '│');
    }

    // Plain vertical borders elsewhere.
    assert_eq!(buf.get(0, 4).symbol, '│');
    assert_eq!(buf.get(39, 4).symbol, '│');
}

#[test]
fn scenario_city_rows() {
    let mut buf = CellBuffer::new(40, 8);
    city_table().draw(rect(0, 0, 40, 8), &mut buf);

    // Data rows start right under the header separator, at the header's
    // column offsets.
    assert_eq!(line_of(&buf, 3, 2, 12), "Dallas    ");
    assert_eq!(line_of(&buf, 3, 13, 23), "TX        ");
    assert_eq!(line_of(&buf, 4, 2, 12), "Boston    ");
    assert_eq!(line_of(&buf, 4, 24, 34), "675000    ");
}

#[test]
fn scenario_city_full_border_lines() {
    let mut buf = CellBuffer::new(40, 8);
    city_table().draw(rect(0, 0, 40, 8), &mut buf);
    assert_eq!(line_of(&buf, 0, 0, 40), "┌───────────┬──────────┬───────────────┐");
    assert_eq!(line_of(&buf, 2, 0, 40), "├───────────┼──────────┼───────────────┤");
    assert_eq!(line_of(&buf, 7, 0, 40), "└───────────┴──────────┴───────────────┘");
}

#[test]
fn zero_constraints_draw_only_the_frame() {
    let table = GriddedTable::new(strings(&["a", "b"]), vec![Row::Data(strings(&["1", "2"]))]);
    let mut buf = CellBuffer::new(10, 5);
    table.draw(rect(0, 0, 10, 5), &mut buf);
    // No constraints means no columns: no header text, no row text, no
    // separators — only the frame and its three horizontal lines.
    assert_eq!(line_of(&buf, 0, 0, 10), "┌────────┐");
    assert_eq!(line_of(&buf, 1, 0, 10), "│        │");
    assert_eq!(line_of(&buf, 2, 0, 10), "├────────┤");
    assert_eq!(line_of(&buf, 3, 0, 10), "│        │");
    assert_eq!(line_of(&buf, 4, 0, 10), "└────────┘");
}

#[test]
fn scenario_percentages_draw() {
    let header = strings(&["a", "b", "c", "d", "e"]);
    let widths = vec![Constraint::Percentage(20); 5];
    let table = GriddedTable::new(header, Vec::new())
        .widths(widths)
        .column_spacing(2);
    let mut buf = CellBuffer::new(100, 6);
    table.draw(rect(0, 0, 100, 6), &mut buf);

    // usable = 100 - 2 - 2 * 4 = 90; every column is 18 wide, so the
    // column texts sit at x = 3, 23, 43, 63, 83.
    assert_eq!(buf.get(3, 1).symbol, 'a');
    assert_eq!(buf.get(23, 1).symbol, 'b');
    assert_eq!(buf.get(43, 1).symbol, 'c');
    assert_eq!(buf.get(63, 1).symbol, 'd');
    assert_eq!(buf.get(83, 1).symbol, 'e');
}

#[test]
fn scenario_no_rows_draws_frame_header_and_separators() {
    let header = strings(&["City", "State", "Population"]);
    let widths = vec![
        Constraint::Length(10),
        Constraint::Length(10),
        Constraint::Length(10),
    ];
    let table = GriddedTable::new(header, Vec::new()).widths(widths);
    let mut buf = CellBuffer::new(40, 8);
    table.draw(rect(0, 0, 40, 8), &mut buf);

    // Frame and header are present.
    assert_eq!(buf.get(0, 0).symbol, '┌');
    assert_eq!(line_of(&buf, 1, 2, 6), "City");
    assert_eq!(buf.get(0, 2).symbol, '├');

    // The row region holds no content: only separators and blanks.
    for y in 3..7u16 {
        assert_eq!(buf.get(12, y).symbol, '│');
        assert_eq!(buf.get(23, y).symbol, '│');
        assert_eq!(line_of(&buf, y, 1, 12), "           ");
        assert_eq!(line_of(&buf, y, 13, 23), "          ");
    }
}

#[test]
fn scenario_styled_row_overrides_base_style() {
    let red = Style { fg: Color::Red, bg: Color::Reset, modifier: 0 };
    let base = Style { fg: Color::White, bg: Color::Reset, modifier: 0 };
    let header = strings(&["h1", "h2"]);
    let rows = vec![
        Row::Data(strings(&["plain", "row"])),
        Row::StyledData(strings(&["loud", "row"]), red),
    ];
    let widths = vec![Constraint::Length(6), Constraint::Length(6)];
    let table = GriddedTable::new(header, rows).widths(widths).style(base);
    let mut buf = CellBuffer::new(24, 8);
    table.draw(rect(0, 0, 24, 8), &mut buf);

    // The plain row keeps the base style.
    assert_eq!(buf.get(2, 3).symbol, 'p');
    assert_eq!(buf.get(2, 3).style, base);
    // The styled row carries its own foreground.
    assert_eq!(buf.get(2, 4).symbol, 'l');
    assert_eq!(buf.get(2, 4).style, red);
    // A background cell of the styled row's line keeps the base style:
    // only that row's text cells are overridden.
    assert_eq!(buf.get(7, 4).symbol, ' ');
    assert_eq!(buf.get(7, 4).style, base);
}

#[test]
fn header_style_applies_to_header_only() {
    let bold_yellow = Style { fg: Color::Yellow, bg: Color::Reset, modifier: 1 };
    let table = city_table().header_style(bold_yellow);
    let mut buf = CellBuffer::new(40, 8);
    table.draw(rect(0, 0, 40, 8), &mut buf);
    assert_eq!(buf.get(2, 1).symbol, 'C');
    assert_eq!(buf.get(2, 1).style, bold_yellow);
    assert_eq!(buf.get(2, 3).symbol, 'D');
    assert_ne!(buf.get(2, 3).style, bold_yellow);
}

#[test]
fn long_values_are_truncated_to_the_column_width() {
    let header = strings(&["Population"]);
    let widths = vec![Constraint::Length(3)];
    let table = GriddedTable::new(header, Vec::new()).widths(widths);
    let mut buf = CellBuffer::new(10, 6);
    table.draw(rect(0, 0, 10, 6), &mut buf);
    assert_eq!(line_of(&buf, 1, 2, 6), "Pop ");
}

#[test]
fn rows_and_header_zip_to_the_shorter_side() {
    let header = strings(&["a", "b", "c", "extra"]);
    let rows = vec![Row::Data(strings(&["x", "y"]))];
    let widths = vec![
        Constraint::Length(4),
        Constraint::Length(4),
        Constraint::Length(4),
    ];
    let table = GriddedTable::new(header, rows).widths(widths);
    let mut buf = CellBuffer::new(30, 8);
    table.draw(rect(0, 0, 30, 8), &mut buf);

    // Three columns only: the fourth header cell is dropped.
    assert_eq!(buf.get(2, 1).symbol, 'a');
    assert_eq!(buf.get(7, 1).symbol, 'b');
    assert_eq!(buf.get(12, 1).symbol, 'c');
    assert_eq!(line_of(&buf, 1, 13, 17), "    ");

    // The short row fills only its first two columns.
    assert_eq!(buf.get(2, 3).symbol, 'x');
    assert_eq!(buf.get(7, 3).symbol, 'y');
    assert_eq!(buf.get(12, 3).symbol, ' ');
}

#[test]
fn rows_past_the_capacity_are_dropped() {
    let header = strings(&["h"]);
    let rows = vec![
        Row::Data(strings(&["r0"])),
        Row::Data(strings(&["r1"])),
        Row::Data(strings(&["r2"])),
    ];
    let widths = vec![Constraint::Length(4)];
    let table = GriddedTable::new(header, rows).widths(widths);
    // Height 7 leaves room for 3 rows; height 6 for only 2.
    let mut buf = CellBuffer::new(12, 6);
    table.draw(rect(0, 0, 12, 6), &mut buf);
    assert_eq!(buf.get(2, 3).symbol, 'r');
    assert_eq!(buf.get(2, 4).symbol, 'r');
    // The last line is the bottom border, not a third row.
    assert_eq!(buf.get(2, 5).symbol, '─');
}

#[test]
fn nothing_outside_the_rectangle_changes() {
    let sentinel = Cell {
        symbol: 'Z',
        style: Style { fg: Color::Magenta, bg: Color::Blue, modifier: 7 },
    };
    let mut buf = CellBuffer::new(12, 12);
    let whole = rect(0, 0, 12, 12);
    for y in 0..12u16 {
        for x in 0..12u16 {
            buf.put(whole, x as u32, y as u32, sentinel);
        }
    }

    let area = rect(3, 3, 9, 9);
    city_table().draw(area, &mut buf);

    for y in 0..12u16 {
        for x in 0..12u16 {
            let inside = x >= 3 && x < 9 && y >= 3 && y < 9;
            if !inside {
                assert_eq!(buf.get(x, y), sentinel, "cell ({}, {}) changed", x, y);
            }
        }
    }
    // And the draw really happened inside.
    assert_eq!(buf.get(3, 3).symbol, '┌');
    assert_eq!(buf.get(8, 8).symbol, '┘');
}

#[test]
fn rendering_twice_gives_identical_buffers() {
    let table = city_table();
    let area = rect(0, 0, 40, 8);
    let mut first = CellBuffer::new(40, 8);
    table.draw(area, &mut first);
    let mut second = CellBuffer::new(40, 8);
    table.draw(area, &mut second);
    for y in 0..8u16 {
        for x in 0..40u16 {
            assert_eq!(first.get(x, y), second.get(x, y));
        }
    }
}

#[test]
fn degenerate_rectangles_do_not_panic() {
    let table = city_table();
    // Empty region.
    let mut buf = CellBuffer::new(10, 10);
    table.draw(rect(5, 5, 5, 5), &mut buf);
    for y in 0..10u16 {
        for x in 0..10u16 {
            assert_eq!(buf.get(x, y).symbol, ' ');
        }
    }
    // Inverted region.
    table.draw(rect(8, 8, 2, 2), &mut buf);
    // A region narrower than the frame margin.
    table.draw(rect(0, 0, 1, 4), &mut buf);
    // A region partly outside the buffer.
    table.draw(rect(6, 6, 30, 30), &mut buf);
    assert_eq!(buf.get(6, 6).symbol, '┌');
}

#[test]
fn builder_accumulates_configuration() {
    let t = GriddedTable::default();
    assert_eq!(t.column_spacing, 1);
    assert!(t.header.is_empty());
    assert!(t.rows.is_empty());
    assert!(t.widths.is_empty());

    let red = Style { fg: Color::Red, bg: Color::Reset, modifier: 0 };
    let t = t
        .header(strings(&["x"]))
        .rows(vec![Row::Data(strings(&["1"]))])
        .widths(vec![Constraint::Length(5)])
        .style(red)
        .header_style(red)
        .column_spacing(3);
    assert_eq!(t.header.len(), 1);
    assert_eq!(t.rows.len(), 1);
    assert_eq!(t.widths.len(), 1);
    assert_eq!(t.column_spacing, 3);
    assert_eq!(t.style, red);
    assert_eq!(t.header_style, red);
}
