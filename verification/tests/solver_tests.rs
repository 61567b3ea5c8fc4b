use gridded_table::solver::Constraint;
use gridded_table::solver::percentages_in_range;
use gridded_table::solver::solve_widths;

#[test]
fn lengths_that_fit_are_exact() {
    let cs = vec![
        Constraint::Length(10),
        Constraint::Length(10),
        Constraint::Length(10),
    ];
    // 30 cells of content + 2 cells of spacing + 2 cells of margin = 34 <= 40.
    let widths = solve_widths(&cs, 40, 1);
    assert_eq!(widths, vec![10, 10, 10]);
}

#[test]
fn lengths_past_the_budget_are_clamped_in_order() {
    let cs = vec![Constraint::Length(30), Constraint::Length(30)];
    // usable = 40 - 2 - 1 = 37: the first column gets its 30, the second
    // only what is left.
    let widths = solve_widths(&cs, 40, 1);
    assert_eq!(widths, vec![30, 7]);
}

#[test]
fn output_length_matches_input_length() {
    let empty: Vec<Constraint> = Vec::new();
    assert_eq!(solve_widths(&empty, 50, 1), Vec::<u16>::new());
    assert_eq!(solve_widths(&empty, 0, 0).len(), 0);

    let mixed = vec![
        Constraint::Length(4),
        Constraint::Percentage(50),
        Constraint::Ratio(1, 3),
        Constraint::Min(2),
        Constraint::Max(9),
    ];
    assert_eq!(solve_widths(&mixed, 60, 1).len(), 5);
    assert_eq!(solve_widths(&mixed, 0, 7).len(), 5);
}

#[test]
fn no_width_is_negative_under_contradictory_bounds() {
    // Min asks for more than Max allows, and more than the region holds.
    let cs = vec![Constraint::Min(50), Constraint::Max(10)];
    let widths = solve_widths(&cs, 20, 1);
    assert_eq!(widths.len(), 2);
    // usable = 20 - 2 - 1 = 17: the Min column is clamped to it, the Max
    // column gets nothing; nothing underflows.
    assert_eq!(widths, vec![17, 0]);

    // A region too narrow even for the frame.
    let widths = solve_widths(&cs, 1, 1);
    assert_eq!(widths, vec![0, 0]);
}

#[test]
fn percentages_summing_to_hundred_fill_the_usable_width() {
    let cs = vec![Constraint::Percentage(20); 5];
    // usable = 100 - 2 - 2 * 4 = 90; each column gets 20% of 90.
    let widths = solve_widths(&cs, 100, 2);
    assert_eq!(widths, vec![18, 18, 18, 18, 18]);
    let total: u16 = widths.iter().sum();
    assert_eq!(total, 90);
}

#[test]
fn percentage_rounding_loses_at_most_one_cell_per_column() {
    let cs = vec![
        Constraint::Percentage(33),
        Constraint::Percentage(33),
        Constraint::Percentage(34),
    ];
    // usable = 50 - 2 - 2 = 46.
    let widths = solve_widths(&cs, 50, 1);
    assert_eq!(widths.len(), 3);
    let total: i32 = widths.iter().map(|w| *w as i32).sum();
    assert!(total <= 46);
    assert!(total >= 46 - 3);
    assert_eq!(widths, vec![15, 15, 15]);
}

#[test]
fn ratios_take_their_fraction_of_the_usable_width() {
    let cs = vec![Constraint::Ratio(1, 3), Constraint::Ratio(2, 3)];
    // usable = 32 - 2 - 1 = 29.
    let widths = solve_widths(&cs, 32, 1);
    assert_eq!(widths, vec![9, 19]);

    // A zero denominator yields a zero width rather than an error.
    let cs = vec![Constraint::Ratio(1, 0)];
    assert_eq!(solve_widths(&cs, 30, 1), vec![0]);
}

#[test]
fn min_gets_its_bound_and_max_gets_nothing() {
    let cs = vec![Constraint::Min(7), Constraint::Max(12)];
    let widths = solve_widths(&cs, 40, 1);
    assert_eq!(widths, vec![7, 0]);
}

#[test]
fn solver_is_deterministic() {
    let cs = vec![
        Constraint::Percentage(30),
        Constraint::Length(12),
        Constraint::Ratio(1, 4),
    ];
    let a = solve_widths(&cs, 73, 2);
    let b = solve_widths(&cs, 73, 2);
    assert_eq!(a, b);
}

#[test]
fn percentage_range_check() {
    let good = vec![Constraint::Percentage(0), Constraint::Percentage(100), Constraint::Length(3)];
    assert!(percentages_in_range(&good));
    let bad = vec![Constraint::Length(3), Constraint::Percentage(101)];
    assert!(!percentages_in_range(&bad));
}
