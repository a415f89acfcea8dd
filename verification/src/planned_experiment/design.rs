//! The design as mathematics: its rows, its columns and its signs.

use vstd::prelude::*;
use crate::fixed::{fits, product, truncated, ONE};
use crate::planned_experiment::scaling::scale_inv_spec;
use crate::planned_experiment::{ParamRange, COEFFICIENT_ONE, EXPERIMENT_COUNT, XMAX, XMIN};

verus! {

/// A row as numbers.
pub open spec fn ints(row: Seq<i64>) -> Seq<int> {
    row.map_values(|v: i64| v as int)
}

/// The coded level of a factor that is at its high end, or at its low end.
pub open spec fn level(high: bool) -> int {
    if high {
        XMAX as int
    } else {
        XMIN as int
    }
}

/// The row for the coded levels `x1`, `x2` and `x3`.
pub open spec fn coded_row(x1: int, x2: int, x3: int) -> Seq<int> {
    seq![
        ONE as int,
        x1,
        x2,
        x3,
        product(x1, x2),
        product(x1, x3),
        product(x2, x3),
        product(product(x1, x2), x3),
    ]
}

/// Row `i` of the design: the first factor is high where `i` has the bit 4,
/// the second where it has the bit 2, the third where it has the bit 1.
pub open spec fn design_row(i: int) -> Seq<int> {
    coded_row(level((i / 4) % 2 == 1), level((i / 2) % 2 == 1), level(i % 2 == 1))
}

/// The design: its eight rows.
pub open spec fn design() -> Seq<Seq<int>> {
    Seq::new(EXPERIMENT_COUNT as nat, |i: int| design_row(i))
}

/// Column `k` of the design.
pub open spec fn design_column(k: int) -> Seq<int> {
    Seq::new(EXPERIMENT_COUNT as nat, |j: int| design_row(j)[k])
}

/// Entry `x` of the design, divided by the number of rows, in the unit of
/// the coefficients.
pub open spec fn solver_entry(x: int) -> int {
    truncated(x * COEFFICIENT_ONE, EXPERIMENT_COUNT * ONE)
}

/// Row `i` of the matrix that gives the coefficients from the responses:
/// column `i` of the design, divided by the number of rows, in the unit of
/// the coefficients.
pub open spec fn solver_row(i: int) -> Seq<int> {
    Seq::new(EXPERIMENT_COUNT as nat, |j: int| solver_entry(design_row(j)[i]))
}

/// The product of two numbers in millionths, where it has a place in 64
/// bits.
pub open spec fn checked_product(a: int, b: int) -> Option<i64> {
    if fits(product(a, b)) {
        Some(product(a, b) as i64)
    } else {
        None
    }
}

/// The row of a point: its three values, coded.
pub open spec fn point_row(
    gen_intensity: u64,
    svc_intensity: u64,
    svc_sigma: u64,
    ranges: Seq<ParamRange>,
) -> Seq<int> {
    coded_row(
        scale_inv_spec(gen_intensity as int, ranges[0].0 as int, ranges[0].1 as int),
        scale_inv_spec(svc_intensity as int, ranges[1].0 as int, ranges[1].1 as int),
        scale_inv_spec(svc_sigma as int, ranges[2].0 as int, ranges[2].1 as int),
    )
}

/// Every entry of the row has a place in 64 bits.
pub open spec fn row_fits(row: Seq<int>) -> bool {
    forall|k: int| 0 <= k < row.len() ==> fits(#[trigger] row[k])
}

/// The signs of the design, row by row: the constant, the three levels,
/// their products in pairs, and the product of all three.
pub open spec fn signs() -> Seq<Seq<int>> {
    seq![
        seq![1, -1, -1, -1, 1, 1, 1, -1],
        seq![1, -1, -1, 1, 1, -1, -1, 1],
        seq![1, -1, 1, -1, -1, 1, -1, 1],
        seq![1, -1, 1, 1, -1, -1, 1, -1],
        seq![1, 1, -1, -1, -1, -1, 1, 1],
        seq![1, 1, -1, 1, -1, 1, -1, -1],
        seq![1, 1, 1, -1, 1, -1, -1, -1],
        seq![1, 1, 1, 1, 1, 1, 1, 1],
    ]
}

/// Column `k` of the signs of the design.
pub open spec fn sign_column(k: int) -> Seq<int> {
    Seq::new(EXPERIMENT_COUNT as nat, |j: int| signs()[j][k])
}

/// The products of coded levels at a corner are coded levels again.
pub proof fn lemma_corner_products()
    ensures
        product(XMAX as int, XMAX as int) == XMAX,
        product(XMAX as int, XMIN as int) == XMIN,
        product(XMIN as int, XMAX as int) == XMIN,
        product(XMIN as int, XMIN as int) == XMAX,
{
}

/// One entry of the design.
pub proof fn lemma_design_entry(i: int, k: int)
    requires
        0 <= i < EXPERIMENT_COUNT,
        0 <= k < EXPERIMENT_COUNT,
    ensures
        design_row(i)[k] == signs()[i][k] * ONE,
        design_row(i)[k] == ONE || design_row(i)[k] == -ONE,
        solver_entry(design_row(i)[k]) == design_row(i)[k],
{
    lemma_corner_products();
}

/// Each entry of the design is one, with the sign that the table gives, and
/// each entry of the solving matrix is an eighth, in the unit of the
/// coefficients, with the sign of the design's entry across the diagonal.
pub proof fn lemma_design_literal()
    ensures
        forall|i: int, k: int|
            0 <= i < EXPERIMENT_COUNT && 0 <= k < EXPERIMENT_COUNT ==> #[trigger] design_row(i)[k]
                == signs()[i][k] * ONE,
        forall|i: int, k: int|
            0 <= i < EXPERIMENT_COUNT && 0 <= k < EXPERIMENT_COUNT ==> #[trigger] solver_row(k)[i]
                == signs()[i][k] * ONE,
        forall|i: int| 0 <= i < EXPERIMENT_COUNT ==> (#[trigger] design_row(i)).len() == 8,
{
    assert forall|i: int, k: int|
        0 <= i < EXPERIMENT_COUNT && 0 <= k < EXPERIMENT_COUNT implies #[trigger] design_row(i)[k]
        == signs()[i][k] * ONE by {
        lemma_design_entry(i, k);
    }
    assert forall|i: int, k: int|
        0 <= i < EXPERIMENT_COUNT && 0 <= k < EXPERIMENT_COUNT implies #[trigger] solver_row(k)[i]
        == signs()[i][k] * ONE by {
        lemma_design_entry(i, k);
    }
}

} // verus!
