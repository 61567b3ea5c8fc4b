use vstd::prelude::*;

verus! {

/// A declarative sizing rule for one table column. It carries no resolved
/// value; the solver turns a list of these plus an available width into
/// concrete cell widths.
#[derive(Clone, Copy, PartialEq, Eq, Structural, Debug)]
pub enum Constraint {
    /// Exact cell width.
    Length(u16),
    /// Fraction of the usable width, in percent; must lie in `0 ..= 100`.
    Percentage(u16),
    /// Fraction `num / den` of the usable width.
    Ratio(u32, u32),
    /// Soft lower bound.
    Min(u16),
    /// Soft upper bound.
    Max(u16),
}

/// A percentage constraint must lie in `0 ..= 100`; every other kind is
/// unrestricted.
pub open spec fn percentage_ok(c: Constraint) -> bool {
    match c {
        Constraint::Percentage(p) => p <= 100,
        _ => true,
    }
}

pub open spec fn all_percentages_ok(cs: Seq<Constraint>) -> bool {
    forall|i: int| 0 <= i < cs.len() ==> percentage_ok(cs[i])
}

/// Runtime check that a constraint list keeps every percentage in range.
pub fn percentages_in_range(cs: &Vec<Constraint>) -> (ok: bool)
    ensures
        ok == all_percentages_ok(cs@),
{
    let mut i: usize = 0;
    while i < cs.len()
        invariant
            i <= cs@.len(),
            forall|j: int| 0 <= j < i ==> percentage_ok(cs@[j]),
        decreases cs@.len() - i,
    {
        let ok = match cs[i] {
            Constraint::Percentage(p) => p <= 100,
            _ => true,
        };
        if !ok {
            return false;
        }
        i = i + 1;
    }
    true
}

/// Cells reserved for the frame's left and right borders.
pub const FRAME_MARGIN: u16 = 2;

/// Width left for column content once the frame margin and the
/// inter-column spacing are taken out; never negative. With no columns
/// there is nothing to distribute.
pub open spec fn spec_usable_width(total: int, spacing: int, n: int) -> int {
    if n == 0 {
        0
    } else if total >= FRAME_MARGIN + spacing * (n - 1) {
        total - FRAME_MARGIN - spacing * (n - 1)
    } else {
        0
    }
}

/// The width one constraint asks for, before the shared budget caps it:
/// a fixed length, a fraction of the usable width, the lower bound of a
/// `Min`, and nothing for a bare `Max`.
pub open spec fn spec_ideal_width(c: Constraint, usable: int) -> int {
    match c {
        Constraint::Length(v) => v as int,
        Constraint::Percentage(p) => p * usable / 100,
        Constraint::Ratio(num, den) => if den == 0 { 0 } else { num * usable / (den as int) },
        Constraint::Min(v) => v as int,
        Constraint::Max(_) => 0,
    }
}

/// `a`, capped at `hi`.
pub open spec fn spec_clamp(a: int, hi: int) -> int {
    if a <= hi {
        a
    } else {
        hi
    }
}

/// Greedy allocation in constraint order: each column receives its ideal
/// width, capped by what is left of the shared budget `remaining`.
pub open spec fn spec_solve_rec(cs: Seq<Constraint>, usable: int, remaining: int) -> Seq<int>
    decreases cs.len(),
{
    if cs.len() == 0 {
        Seq::<int>::empty()
    } else {
        let w = spec_clamp(spec_ideal_width(cs[0], usable), remaining);
        seq![w] + spec_solve_rec(cs.drop_first(), usable, remaining - w)
    }
}

/// The widths the solver resolves for `cs` inside a region `total` cells
/// wide with `spacing` cells between adjacent columns.
pub open spec fn spec_solved_widths(cs: Seq<Constraint>, total: int, spacing: int) -> Seq<int> {
    let u = spec_usable_width(total, spacing, cs.len() as int);
    spec_solve_rec(cs, u, u)
}

pub open spec fn sum_ints(s: Seq<int>) -> int
    decreases s.len(),
{
    if s.len() == 0 {
        0
    } else {
        s[0] + sum_ints(s.drop_first())
    }
}

pub open spec fn widths_as_ints(s: Seq<u16>) -> Seq<int> {
    s.map_values(|w: u16| w as int)
}

/// Summing distributes over appending one element.
pub proof fn lemma_sum_push(s: Seq<int>, v: int)
    ensures
        sum_ints(s.push(v)) == sum_ints(s) + v,
    decreases s.len(),
{
    if s.len() == 0 {
        assert(s.push(v)[0] == v);
        assert(s.push(v).drop_first() =~= Seq::<int>::empty());
        assert(sum_ints(s.push(v).drop_first()) == 0);
        assert(sum_ints(s.push(v)) == s.push(v)[0] + sum_ints(s.push(v).drop_first()));
        assert(sum_ints(s) == 0);
    } else {
        assert(s.push(v)[0] == s[0]);
        assert(s.push(v).drop_first() =~= s.drop_first().push(v));
        lemma_sum_push(s.drop_first(), v);
        assert(sum_ints(s.push(v)) == s.push(v)[0] + sum_ints(s.push(v).drop_first()));
        assert(sum_ints(s.push(v).drop_first()) == sum_ints(s.drop_first().push(v)));
        assert(sum_ints(s) == s[0] + sum_ints(s.drop_first()));
    }
}

/// An ideal width is never negative when the usable width is not.
pub proof fn lemma_ideal_nonneg(c: Constraint, usable: int)
    requires
        usable >= 0,
    ensures
        spec_ideal_width(c, usable) >= 0,
{
    match c {
        Constraint::Percentage(p) => {
            assert(p * usable >= 0) by (nonlinear_arith)
                requires
                    p >= 0,
                    usable >= 0,
            ;
        },
        Constraint::Ratio(num, den) => {
            if den != 0 {
                assert(num * usable >= 0) by (nonlinear_arith)
                    requires
                        num >= 0,
                        usable >= 0,
                ;
            }
        },
        _ => {},
    }
}

/// The allocation has one width per constraint, every width lies between
/// zero and the starting budget, and the widths never overrun the budget.
pub proof fn lemma_solve_rec_basic(cs: Seq<Constraint>, usable: int, remaining: int)
    requires
        usable >= 0,
        remaining >= 0,
    ensures
        spec_solve_rec(cs, usable, remaining).len() == cs.len(),
        forall|i: int| 0 <= i < cs.len() ==> 0 <= #[trigger] spec_solve_rec(cs, usable, remaining)[i] <= remaining,
        sum_ints(spec_solve_rec(cs, usable, remaining)) <= remaining,
        sum_ints(spec_solve_rec(cs, usable, remaining)) >= 0,
    decreases cs.len(),
{
    if cs.len() == 0 {
    } else {
        lemma_ideal_nonneg(cs[0], usable);
        let w = spec_clamp(spec_ideal_width(cs[0], usable), remaining);
        let rest = spec_solve_rec(cs.drop_first(), usable, remaining - w);
        lemma_solve_rec_basic(cs.drop_first(), usable, remaining - w);
        let whole = spec_solve_rec(cs, usable, remaining);
        assert(whole == seq![w] + rest);
        assert(whole.drop_first() =~= rest);
        assert(sum_ints(whole) == w + sum_ints(rest));
        assert(forall|i: int| 1 <= i < cs.len() ==> #[trigger] whole[i] == rest[i - 1]);
    }
}

/// Appending one constraint appends one width: the ideal width of the
/// newcomer, capped by whatever budget the earlier columns left over.
pub proof fn lemma_solve_rec_snoc(cs: Seq<Constraint>, c: Constraint, usable: int, remaining: int)
    ensures
        spec_solve_rec(cs.push(c), usable, remaining) == spec_solve_rec(cs, usable, remaining).push(
            spec_clamp(spec_ideal_width(c, usable), remaining - sum_ints(spec_solve_rec(cs, usable, remaining))),
        ),
    decreases cs.len(),
{
    if cs.len() == 0 {
        assert(cs.push(c)[0] == c);
        assert(cs.push(c).drop_first() =~= Seq::<Constraint>::empty());
        let w0 = spec_clamp(spec_ideal_width(c, usable), remaining);
        assert(spec_solve_rec(cs, usable, remaining) =~= Seq::<int>::empty());
        assert(sum_ints(spec_solve_rec(cs, usable, remaining)) == 0);
        assert(spec_solve_rec(cs.push(c).drop_first(), usable, remaining - w0) =~= Seq::<int>::empty());
        assert(spec_solve_rec(cs.push(c), usable, remaining) =~= seq![w0] + Seq::<int>::empty());
        assert(spec_solve_rec(cs.push(c), usable, remaining) =~= spec_solve_rec(cs, usable, remaining).push(
            spec_clamp(spec_ideal_width(c, usable), remaining - sum_ints(spec_solve_rec(cs, usable, remaining))),
        ));
    } else {
        let w = spec_clamp(spec_ideal_width(cs[0], usable), remaining);
        assert(cs.push(c)[0] == cs[0]);
        assert(cs.push(c).drop_first() =~= cs.drop_first().push(c));
        lemma_solve_rec_snoc(cs.drop_first(), c, usable, remaining - w);
        let rest = spec_solve_rec(cs.drop_first(), usable, remaining - w);
        assert(spec_solve_rec(cs, usable, remaining).drop_first() =~= rest);
        assert(sum_ints(spec_solve_rec(cs, usable, remaining)) == w + sum_ints(rest));
        assert(spec_solve_rec(cs.push(c), usable, remaining) =~= spec_solve_rec(cs, usable, remaining).push(
            spec_clamp(spec_ideal_width(c, usable), remaining - sum_ints(spec_solve_rec(cs, usable, remaining))),
        ));
    }
}

/// The solver's output always has exactly one width per input constraint,
/// for any constraint count including zero.
pub proof fn lemma_solved_count(cs: Seq<Constraint>, total: int, spacing: int)
    ensures
        spec_solved_widths(cs, total, spacing).len() == cs.len(),
{
    let u = spec_usable_width(total, spacing, cs.len() as int);
    lemma_usable_nonneg(total, spacing, cs.len() as int);
    lemma_solve_rec_basic(cs, u, u);
}

pub proof fn lemma_usable_nonneg(total: int, spacing: int, n: int)
    ensures
        spec_usable_width(total, spacing, n) >= 0,
{
}

/// No resolved width is ever negative, whatever mix of constraints is
/// given — contradictory bounds included; and the widths never exceed the
/// usable width, so the hard sum bound always holds.
pub proof fn lemma_widths_nonneg_and_bounded(cs: Seq<Constraint>, total: int, spacing: int)
    ensures
        forall|i: int| 0 <= i < cs.len() ==> 0 <= #[trigger] spec_solved_widths(cs, total, spacing)[i],
        sum_ints(spec_solved_widths(cs, total, spacing)) <= spec_usable_width(total, spacing, cs.len() as int),
{
    let u = spec_usable_width(total, spacing, cs.len() as int);
    lemma_usable_nonneg(total, spacing, cs.len() as int);
    lemma_solve_rec_basic(cs, u, u);
}

pub open spec fn all_lengths(cs: Seq<Constraint>) -> bool {
    forall|i: int| 0 <= i < cs.len() ==> cs[i] is Length
}

pub open spec fn length_of(c: Constraint) -> int {
    match c {
        Constraint::Length(v) => v as int,
        _ => 0,
    }
}

pub open spec fn sum_lengths(cs: Seq<Constraint>) -> int
    decreases cs.len(),
{
    if cs.len() == 0 {
        0
    } else {
        length_of(cs[0]) + sum_lengths(cs.drop_first())
    }
}

/// The allocation always yields one width per constraint, whatever the
/// budget.
pub proof fn lemma_solve_rec_len(cs: Seq<Constraint>, usable: int, remaining: int)
    ensures
        spec_solve_rec(cs, usable, remaining).len() == cs.len(),
    decreases cs.len(),
{
    if cs.len() > 0 {
        let w = spec_clamp(spec_ideal_width(cs[0], usable), remaining);
        lemma_solve_rec_len(cs.drop_first(), usable, remaining - w);
    }
}

pub proof fn lemma_sum_lengths_nonneg(cs: Seq<Constraint>)
    ensures
        sum_lengths(cs) >= 0,
    decreases cs.len(),
{
    if cs.len() > 0 {
        lemma_sum_lengths_nonneg(cs.drop_first());
    }
}

proof fn lemma_lengths_exact_rec(cs: Seq<Constraint>, usable: int, remaining: int)
    requires
        all_lengths(cs),
        sum_lengths(cs) <= remaining,
    ensures
        forall|i: int| 0 <= i < cs.len() ==> #[trigger] spec_solve_rec(cs, usable, remaining)[i] == length_of(cs[i]),
    decreases cs.len(),
{
    if cs.len() > 0 {
        let v = length_of(cs[0]);
        assert(cs[0] is Length);
        assert(spec_ideal_width(cs[0], usable) == v);
        lemma_sum_lengths_nonneg(cs.drop_first());
        assert(v <= remaining);
        assert(spec_clamp(v, remaining) == v);
        assert(forall|i: int| 0 <= i < cs.drop_first().len() ==> cs.drop_first()[i] == cs[i + 1]);
        lemma_lengths_exact_rec(cs.drop_first(), usable, remaining - v);
        lemma_solve_rec_len(cs.drop_first(), usable, remaining - v);
        let whole = spec_solve_rec(cs, usable, remaining);
        let rest = spec_solve_rec(cs.drop_first(), usable, remaining - v);
        assert(whole == seq![v] + rest);
        assert(whole.drop_first() =~= rest);
        assert(whole[0] == v);
        assert(forall|i: int| 1 <= i < cs.len() ==> #[trigger] whole[i] == rest[i - 1]);
    }
}

/// Fixed lengths that fit are honoured exactly: when the lengths plus the
/// spacing and the frame margin do not exceed the total width, every
/// column resolves to precisely its requested length, unclamped.
pub proof fn lemma_lengths_exact(cs: Seq<Constraint>, total: int, spacing: int)
    requires
        all_lengths(cs),
        cs.len() > 0,
        spacing >= 0,
        sum_lengths(cs) + spacing * (cs.len() - 1) + FRAME_MARGIN <= total,
    ensures
        forall|i: int| 0 <= i < cs.len() ==> #[trigger] spec_solved_widths(cs, total, spacing)[i] == length_of(cs[i]),
{
    let n = cs.len() as int;
    let u = spec_usable_width(total, spacing, n);
    lemma_sum_lengths_nonneg(cs);
    assert(spacing * (n - 1) >= 0) by (nonlinear_arith)
        requires
            spacing >= 0,
            n >= 1,
    ;
    assert(total >= FRAME_MARGIN + spacing * (n - 1));
    assert(u == total - FRAME_MARGIN - spacing * (n - 1));
    assert(sum_lengths(cs) <= u);
    lemma_lengths_exact_rec(cs, u, u);
}

pub open spec fn all_percentages(cs: Seq<Constraint>) -> bool {
    forall|i: int| 0 <= i < cs.len() ==> cs[i] is Percentage
}

pub open spec fn percentage_of(c: Constraint) -> int {
    match c {
        Constraint::Percentage(p) => p as int,
        _ => 0,
    }
}

pub open spec fn sum_percentages(cs: Seq<Constraint>) -> int
    decreases cs.len(),
{
    if cs.len() == 0 {
        0
    } else {
        percentage_of(cs[0]) + sum_percentages(cs.drop_first())
    }
}

pub proof fn lemma_sum_percentages_nonneg(cs: Seq<Constraint>)
    ensures
        sum_percentages(cs) >= 0,
    decreases cs.len(),
{
    if cs.len() > 0 {
        lemma_sum_percentages_nonneg(cs.drop_first());
    }
}

/// Floor division by 100 sits between superadditive and subadditive:
/// splitting the numerator loses at most one cell.
proof fn lemma_div100_split(a: int, b: int)
    requires
        a >= 0,
        b >= 0,
    ensures
        a / 100 + b / 100 <= (a + b) / 100,
        (a + b) / 100 <= a / 100 + b / 100 + 1,
{
    assert(a / 100 + b / 100 <= (a + b) / 100 && (a + b) / 100 <= a / 100 + b / 100 + 1)
        by (nonlinear_arith)
        requires
            a >= 0,
            b >= 0,
    ;
}

proof fn lemma_percentages_rec(cs: Seq<Constraint>, usable: int, remaining: int)
    requires
        all_percentages(cs),
        usable >= 0,
        sum_percentages(cs) * usable / 100 <= remaining,
    ensures
        forall|i: int| 0 <= i < cs.len() ==> #[trigger] spec_solve_rec(cs, usable, remaining)[i]
            == percentage_of(cs[i]) * usable / 100,
        sum_ints(spec_solve_rec(cs, usable, remaining)) <= sum_percentages(cs) * usable / 100,
        sum_ints(spec_solve_rec(cs, usable, remaining)) >= sum_percentages(cs) * usable / 100 - cs.len(),
    decreases cs.len(),
{
    if cs.len() > 0 {
        let p0 = percentage_of(cs[0]);
        let rest_cs = cs.drop_first();
        let sum_p = sum_percentages(cs);
        let sum_rest = sum_percentages(rest_cs);
        lemma_sum_percentages_nonneg(rest_cs);
        assert(cs[0] is Percentage);
        assert(spec_ideal_width(cs[0], usable) == p0 * usable / 100);
        let ideal = p0 * usable / 100;
        assert(p0 * usable >= 0 && sum_rest * usable >= 0 && p0 * usable + sum_rest * usable == sum_p * usable)
            by (nonlinear_arith)
            requires
                p0 >= 0,
                sum_rest >= 0,
                usable >= 0,
                sum_p == p0 + sum_rest,
        ;
        lemma_div100_split(p0 * usable, sum_rest * usable);
        vstd::arithmetic::div_mod::lemma_div_pos_is_pos(p0 * usable, 100);
        vstd::arithmetic::div_mod::lemma_div_pos_is_pos(sum_rest * usable, 100);
        assert(ideal <= sum_p * usable / 100);
        assert(ideal <= remaining);
        assert(spec_clamp(ideal, remaining) == ideal);
        assert(sum_rest * usable / 100 <= remaining - ideal);
        lemma_percentages_rec(rest_cs, usable, remaining - ideal);
        lemma_solve_rec_len(rest_cs, usable, remaining - ideal);
        let whole = spec_solve_rec(cs, usable, remaining);
        let rest = spec_solve_rec(rest_cs, usable, remaining - ideal);
        assert(whole == seq![ideal] + rest);
        assert(whole.drop_first() =~= rest);
        assert(whole[0] == ideal);
        assert(sum_ints(whole) == ideal + sum_ints(rest));
        assert(forall|i: int| 1 <= i < cs.len() ==> #[trigger] whole[i] == rest[i - 1]);
        assert(forall|i: int| 0 <= i < rest_cs.len() ==> rest_cs[i] == cs[i + 1]);
    }
}

/// Percentages that sum to one hundred fill the usable width to within a
/// rounding loss of one cell per column: each column gets exactly the
/// floor of its share, and together the widths land in
/// `usable - n ..= usable`.
pub proof fn lemma_percentages_fill(cs: Seq<Constraint>, total: int, spacing: int)
    requires
        all_percentages(cs),
        sum_percentages(cs) == 100,
    ensures
        forall|i: int| 0 <= i < cs.len() ==> #[trigger] spec_solved_widths(cs, total, spacing)[i]
            == percentage_of(cs[i]) * spec_usable_width(total, spacing, cs.len() as int) / 100,
        sum_ints(spec_solved_widths(cs, total, spacing)) <= spec_usable_width(total, spacing, cs.len() as int),
        sum_ints(spec_solved_widths(cs, total, spacing)) >= spec_usable_width(total, spacing, cs.len() as int) - cs.len(),
{
    let n = cs.len() as int;
    let u = spec_usable_width(total, spacing, n);
    lemma_usable_nonneg(total, spacing, n);
    assert(100 * u / 100 == u) by (nonlinear_arith)
        requires
            u >= 0,
    ;
    lemma_percentages_rec(cs, u, u);
}

/// Usable width as the solver computes it at runtime.
fn usable_width(total: u16, spacing: u16, n: usize) -> (u: u16)
    ensures
        u as int == spec_usable_width(total as int, spacing as int, n as int),
{
    if n == 0 {
        assert(spec_usable_width(total as int, spacing as int, n as int) == 0);
        0
    } else if spacing == 0 {
        assert((spacing as int) * ((n as int) - 1) == 0);
        if total >= FRAME_MARGIN {
            assert(spec_usable_width(total as int, spacing as int, n as int) == total - FRAME_MARGIN);
            total - FRAME_MARGIN
        } else {
            assert(spec_usable_width(total as int, spacing as int, n as int) == 0);
            0
        }
    } else if n - 1 > 0xFFFF {
        proof {
            assert((spacing as int) * ((n as int) - 1) >= (n as int) - 1) by (nonlinear_arith)
                requires
                    spacing >= 1,
                    n >= 1,
            ;
            assert((total as int) < FRAME_MARGIN + (spacing as int) * ((n as int) - 1));
        }
        0
    } else {
        proof {
            assert((spacing as int) * ((n as int) - 1) <= 0xFFFF * 0xFFFF) by (nonlinear_arith)
                requires
                    0 <= spacing <= 0xFFFF,
                    0 <= (n as int) - 1 <= 0xFFFF,
            ;
            assert((spacing as int) * ((n as int) - 1) >= 0) by (nonlinear_arith)
                requires
                    spacing >= 0,
                    n >= 1,
            ;
        }
        let need: u64 = (FRAME_MARGIN as u64) + (spacing as u64) * ((n - 1) as u64);
        assert(need as int == FRAME_MARGIN + (spacing as int) * ((n as int) - 1));
        if (total as u64) >= need {
            (total as u64 - need) as u16
        } else {
            0
        }
    }
}

/// Resolve `constraints` against a region `total` cells wide with
/// `spacing` cells between adjacent columns: one width per constraint, in
/// constraint order, each its constraint's ideal width capped by what is
/// left of the usable width. Deterministic: equal inputs give equal
/// widths.
pub fn solve_widths(constraints: &Vec<Constraint>, total: u16, spacing: u16) -> (r: Vec<u16>)
    ensures
        r@.len() == constraints@.len(),
        widths_as_ints(r@) == spec_solved_widths(constraints@, total as int, spacing as int),
        sum_ints(widths_as_ints(r@)) <= spec_usable_width(total as int, spacing as int, constraints@.len() as int),
{
    let n = constraints.len();
    let usable: u16 = usable_width(total, spacing, n);
    let ghost u: int = usable as int;
    let mut r: Vec<u16> = Vec::new();
    let mut remaining: u16 = usable;
    let mut i: usize = 0;
    while i < n
        invariant
            i <= n,
            n == constraints@.len(),
            u == spec_usable_width(total as int, spacing as int, n as int),
            usable as int == u,
            r@.len() == i,
            widths_as_ints(r@) == spec_solve_rec(constraints@.take(i as int), u, u),
            remaining as int == u - sum_ints(widths_as_ints(r@)),
        decreases n - i,
    {
        let c = constraints[i];
        let ideal: u64 = match c {
            Constraint::Length(v) => v as u64,
            Constraint::Percentage(p) => {
                proof {
                    assert((p as int) * (usable as int) <= 0xFFFF * 0xFFFF) by (nonlinear_arith)
                        requires
                            0 <= p <= 0xFFFF,
                            0 <= usable <= 0xFFFF,
                    ;
                }
                (p as u64) * (usable as u64) / 100
            },
            Constraint::Ratio(num, den) => if den == 0 {
                0
            } else {
                proof {
                    assert((num as int) * (usable as int) <= 0xFFFFFFFF * 0xFFFF) by (nonlinear_arith)
                        requires
                            0 <= num <= 0xFFFFFFFF,
                            0 <= usable <= 0xFFFF,
                    ;
                }
                (num as u64) * (usable as u64) / (den as u64)
            },
            Constraint::Min(v) => v as u64,
            Constraint::Max(_) => 0,
        };
        assert(ideal as int == spec_ideal_width(c, u));
        let w: u16 = if ideal <= remaining as u64 {
            ideal as u16
        } else {
            remaining
        };
        assert(w as int == spec_clamp(spec_ideal_width(c, u), remaining as int));
        let ghost r_before = r@;
        remaining = remaining - w;
        r.push(w);
        proof {
            let prefix = constraints@.take(i as int);
            lemma_solve_rec_snoc(prefix, c, u, u);
            lemma_sum_push(widths_as_ints(r_before), w as int);
            assert(constraints@.take(i as int + 1) =~= prefix.push(c));
            assert(widths_as_ints(r@) =~= widths_as_ints(r_before).push(w as int));
        }
        i = i + 1;
    }
    proof {
        assert(constraints@.take(n as int) =~= constraints@);
    }
    r
}

} // verus!
