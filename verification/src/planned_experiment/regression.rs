//! The regression as mathematics: the coefficients that solve the design,
//! what they predict, and why the fit gives back what it was fitted to.

use vstd::prelude::*;
use crate::fixed::{fits, lemma_truncated_multiple, product, truncated, ONE};
use crate::model::ModelError;
use crate::planned_experiment::design::{
    design_column, design_row, lemma_design_entry, lemma_design_literal, point_row, row_fits,
    sign_column, signs, solver_row,
};
use crate::planned_experiment::scaling::coding_refusal;
use crate::planned_experiment::{ParamRange, COEFFICIENT_ONE, EXPERIMENT_COUNT, PARAMS_COUNT};

verus! {

/// The first `n` products of a coefficient and the number beside it, added
/// up. The sum is in the unit of the coefficients.
pub open spec fn weighted(c: Seq<int>, x: Seq<int>, n: nat) -> int
    decreases n,
{
    if n == 0 {
        0
    } else {
        weighted(c, x, (n - 1) as nat) + product(c[n - 1], x[n - 1])
    }
}

/// Each of the first `n` products has a place in 64 bits, and so has their
/// sum.
pub open spec fn weighted_fits(c: Seq<int>, x: Seq<int>, n: nat) -> bool {
    &&& forall|k: int| 0 <= k < n ==> fits(#[trigger] product(c[k], x[k]))
    &&& fits(weighted(c, x, n))
}

/// A number in the unit of the coefficients, in millionths.
pub open spec fn in_millionths(v: int) -> int {
    truncated(v, COEFFICIENT_ONE / ONE)
}

/// What the model with the coefficients `b` predicts at the row `x` from the
/// constant and the three levels alone, in millionths.
pub open spec fn linear_spec(b: Seq<int>, x: Seq<int>) -> int {
    in_millionths(weighted(b, x, (PARAMS_COUNT + 1) as nat))
}

/// What the model with the coefficients `b` predicts at the row `x` from
/// all its terms, in millionths.
pub open spec fn non_linear_spec(b: Seq<int>, x: Seq<int>) -> int {
    in_millionths(weighted(b, x, EXPERIMENT_COUNT as nat))
}

/// The coefficients that the responses `y` give, in eighths of a millionth.
pub open spec fn coefficients(y: Seq<int>) -> Seq<int> {
    Seq::new(
        EXPERIMENT_COUNT as nat,
        |i: int| weighted(solver_row(i), y, EXPERIMENT_COUNT as nat),
    )
}

/// Entry `k` of `out` is what the first `n` terms of the model fitted to the
/// responses `y` predict at row `k` of the design, and every number on the
/// way to it has a place in 64 bits.
pub open spec fn predicted(out: Seq<i64>, y: Seq<int>, k: int, n: nat) -> bool {
    &&& out[k] == in_millionths(weighted(coefficients(y), design_row(k), n))
    &&& weighted_fits(coefficients(y), design_row(k), n)
}

/// Every number that the regression on the responses `y` works out has a
/// place in 64 bits.
pub open spec fn fit_accepts(y: Seq<int>) -> bool {
    &&& forall|i: int|
        0 <= i < EXPERIMENT_COUNT ==> #[trigger] weighted_fits(
            solver_row(i),
            y,
            EXPERIMENT_COUNT as nat,
        )
    &&& forall|i: int|
        0 <= i < EXPERIMENT_COUNT ==> #[trigger] weighted_fits(
            coefficients(y),
            design_row(i),
            (PARAMS_COUNT + 1) as nat,
        )
    &&& forall|i: int|
        0 <= i < EXPERIMENT_COUNT ==> #[trigger] weighted_fits(
            coefficients(y),
            design_row(i),
            EXPERIMENT_COUNT as nat,
        )
}

/// Why a point cannot be compared with the model, if it cannot: the first of
/// its values that has no coded level says why, and after that any number
/// that has no place in 64 bits.
pub open spec fn compare_refusal(
    gen_intensity: u64,
    svc_intensity: u64,
    svc_sigma: u64,
    ranges: Seq<ParamRange>,
    b: Seq<int>,
) -> Option<ModelError> {
    let row = point_row(gen_intensity, svc_intensity, svc_sigma, ranges);
    if coding_refusal(gen_intensity, ranges[0]) is Some {
        coding_refusal(gen_intensity, ranges[0])
    } else if coding_refusal(svc_intensity, ranges[1]) is Some {
        coding_refusal(svc_intensity, ranges[1])
    } else if coding_refusal(svc_sigma, ranges[2]) is Some {
        coding_refusal(svc_sigma, ranges[2])
    } else if !row_fits(row) || !weighted_fits(b, row, (PARAMS_COUNT + 1) as nat) || !weighted_fits(
        b,
        row,
        EXPERIMENT_COUNT as nat,
    ) {
        Some(ModelError::Overflow)
    } else {
        None
    }
}

/// The number `v` with the sign `sign`, which is one or minus one.
pub open spec fn signed(sign: int, v: int) -> int {
    if sign == 1 {
        v
    } else {
        -v
    }
}

/// The first four of the numbers `v`, added up with the signs `s`.
pub open spec fn signed_sum_of_four(s: Seq<int>, v: Seq<int>) -> int {
    signed(s[0], v[0]) + signed(s[1], v[1]) + signed(s[2], v[2]) + signed(s[3], v[3])
}

/// The eight numbers `v`, added up with the signs `s`.
pub open spec fn signed_sum(s: Seq<int>, v: Seq<int>) -> int {
    signed_sum_of_four(s, v) + signed(s[4], v[4]) + signed(s[5], v[5]) + signed(s[6], v[6])
        + signed(s[7], v[7])
}

/// The eight numbers `t`, added up with the signs of column `k` of the
/// design.
pub open spec fn column_sum(k: int, t: Seq<int>) -> int {
    if k == 0 {
        t[0] + t[1] + t[2] + t[3] + t[4] + t[5] + t[6] + t[7]
    } else if k == 1 {
        -t[0] - t[1] - t[2] - t[3] + t[4] + t[5] + t[6] + t[7]
    } else if k == 2 {
        -t[0] - t[1] + t[2] + t[3] - t[4] - t[5] + t[6] + t[7]
    } else if k == 3 {
        -t[0] + t[1] - t[2] + t[3] - t[4] + t[5] - t[6] + t[7]
    } else if k == 4 {
        t[0] + t[1] - t[2] - t[3] - t[4] - t[5] + t[6] + t[7]
    } else if k == 5 {
        t[0] - t[1] + t[2] - t[3] - t[4] + t[5] - t[6] + t[7]
    } else if k == 6 {
        t[0] - t[1] - t[2] + t[3] + t[4] - t[5] - t[6] + t[7]
    } else {
        -t[0] + t[1] + t[2] - t[3] + t[4] - t[5] - t[6] + t[7]
    }
}

/// Each of the eight numbers `b` is the eight numbers `t` added up with the
/// signs of its column of the design.
pub open spec fn column_sums(b: Seq<int>, t: Seq<int>) -> bool {
    &&& b.len() == EXPERIMENT_COUNT
    &&& t.len() == EXPERIMENT_COUNT
    &&& b[0] == column_sum(0, t)
    &&& b[1] == column_sum(1, t)
    &&& b[2] == column_sum(2, t)
    &&& b[3] == column_sum(3, t)
    &&& b[4] == column_sum(4, t)
    &&& b[5] == column_sum(5, t)
    &&& b[6] == column_sum(6, t)
    &&& b[7] == column_sum(7, t)
}

/// A product with one or with minus one, on either side.
pub proof fn lemma_unit(v: int)
    ensures
        product(v, ONE as int) == v,
        product(v, -ONE) == -v,
        product(ONE as int, v) == v,
        product(-ONE, v) == -v,
{
    lemma_truncated_multiple(v, ONE as int);
    lemma_truncated_multiple(-v, ONE as int);
    assert(v * (-ONE) == (-v) * ONE) by (nonlinear_arith);
    assert(ONE * v == v * ONE) by (nonlinear_arith);
    assert((-ONE) * v == (-v) * ONE) by (nonlinear_arith);
}

/// A sum of eight products with the entries of a row or a column of the
/// design is the sum of the eight numbers with its signs.
pub proof fn lemma_weighted_signs(c: Seq<int>, s: Seq<int>, v: Seq<int>, on_the_left: bool)
    requires
        c.len() == EXPERIMENT_COUNT,
        s.len() == EXPERIMENT_COUNT,
        v.len() == EXPERIMENT_COUNT,
        forall|k: int|
            0 <= k < EXPERIMENT_COUNT ==> (#[trigger] s[k] == 1 && c[k] == ONE) || (s[k] == -1
                && c[k] == -ONE),
    ensures
        on_the_left ==> weighted(c, v, EXPERIMENT_COUNT as nat) == signed_sum(s, v) && weighted(
            c,
            v,
            (PARAMS_COUNT + 1) as nat,
        ) == signed_sum_of_four(s, v),
        !on_the_left ==> weighted(v, c, EXPERIMENT_COUNT as nat) == signed_sum(s, v) && weighted(
            v,
            c,
            (PARAMS_COUNT + 1) as nat,
        ) == signed_sum_of_four(s, v),
        forall|k: int|
            0 <= k < EXPERIMENT_COUNT ==> #[trigger] product(c[k], v[k]) == signed(s[k], v[k])
                && product(v[k], c[k]) == signed(s[k], v[k]),
{
    reveal_with_fuel(weighted, 9);
    assert forall|k: int| 0 <= k < EXPERIMENT_COUNT implies #[trigger] product(c[k], v[k])
        == signed(s[k], v[k]) && product(v[k], c[k]) == signed(s[k], v[k]) by {
        lemma_unit(v[k]);
        assert(s[k] == 1 || s[k] == -1);
    }
    assert(product(c[0], v[0]) == signed(s[0], v[0]) && product(v[0], c[0]) == signed(s[0], v[0]));
    assert(product(c[1], v[1]) == signed(s[1], v[1]) && product(v[1], c[1]) == signed(s[1], v[1]));
    assert(product(c[2], v[2]) == signed(s[2], v[2]) && product(v[2], c[2]) == signed(s[2], v[2]));
    assert(product(c[3], v[3]) == signed(s[3], v[3]) && product(v[3], c[3]) == signed(s[3], v[3]));
    assert(product(c[4], v[4]) == signed(s[4], v[4]) && product(v[4], c[4]) == signed(s[4], v[4]));
    assert(product(c[5], v[5]) == signed(s[5], v[5]) && product(v[5], c[5]) == signed(s[5], v[5]));
    assert(product(c[6], v[6]) == signed(s[6], v[6]) && product(v[6], c[6]) == signed(s[6], v[6]));
    assert(product(c[7], v[7]) == signed(s[7], v[7]) && product(v[7], c[7]) == signed(s[7], v[7]));
}

/// The entries of a row of the design, and those of a row of the solving
/// matrix, are one with the signs of the table.
pub proof fn lemma_design_signs(i: int)
    requires
        0 <= i < EXPERIMENT_COUNT,
    ensures
        forall|k: int|
            0 <= k < EXPERIMENT_COUNT ==> (#[trigger] signs()[i][k] == 1 && design_row(i)[k]
                == ONE) || (signs()[i][k] == -1 && design_row(i)[k] == -ONE),
        forall|j: int|
            0 <= j < EXPERIMENT_COUNT ==> (#[trigger] sign_column(i)[j] == 1 && solver_row(i)[j]
                == ONE) || (sign_column(i)[j] == -1 && solver_row(i)[j] == -ONE),
        signs()[i].len() == EXPERIMENT_COUNT,
        design_row(i).len() == EXPERIMENT_COUNT,
{
    lemma_design_literal();
    assert forall|k: int| 0 <= k < EXPERIMENT_COUNT implies (#[trigger] signs()[i][k] == 1
        && design_row(i)[k] == ONE) || (signs()[i][k] == -1 && design_row(i)[k] == -ONE) by {
        lemma_design_entry(i, k);
        let sign = signs()[i][k];
        assert(sign == 1 || sign == -1) by (nonlinear_arith)
            requires
                sign * ONE == ONE || sign * ONE == -ONE,
        ;
    }
    assert forall|j: int| 0 <= j < EXPERIMENT_COUNT implies (#[trigger] sign_column(i)[j] == 1
        && solver_row(i)[j] == ONE) || (sign_column(i)[j] == -1 && solver_row(i)[j] == -ONE) by {
        lemma_design_entry(j, i);
        let sign = signs()[j][i];
        assert(sign == 1 || sign == -1) by (nonlinear_arith)
            requires
                sign * ONE == ONE || sign * ONE == -ONE,
        ;
    }
}

/// A coefficient is the responses, added up with the signs of its column of
/// the design.
pub proof fn lemma_coefficient(y: Seq<int>, k: int)
    requires
        y.len() == EXPERIMENT_COUNT,
        0 <= k < EXPERIMENT_COUNT,
    ensures
        coefficients(y)[k] == column_sum(k, y),
{
    let s = sign_column(k);
    assert(coefficients(y)[k] == signed_sum(s, y)) by {
        lemma_design_signs(k);
        lemma_weighted_signs(solver_row(k), s, y, true);
    }
    if k == 0 {
        assert(s =~= seq![1, 1, 1, 1, 1, 1, 1, 1]);
    } else if k == 1 {
        assert(s =~= seq![-1, -1, -1, -1, 1, 1, 1, 1]);
    } else if k == 2 {
        assert(s =~= seq![-1, -1, 1, 1, -1, -1, 1, 1]);
    } else if k == 3 {
        assert(s =~= seq![-1, 1, -1, 1, -1, 1, -1, 1]);
    } else if k == 4 {
        assert(s =~= seq![1, 1, -1, -1, -1, -1, 1, 1]);
    } else if k == 5 {
        assert(s =~= seq![1, -1, 1, -1, -1, 1, -1, 1]);
    } else if k == 6 {
        assert(s =~= seq![1, -1, -1, 1, 1, -1, -1, 1]);
    } else {
        assert(s =~= seq![-1, 1, 1, -1, 1, -1, -1, 1]);
    }
}

/// The coefficients, each written out.
pub proof fn lemma_coefficients(y: Seq<int>)
    requires
        y.len() == EXPERIMENT_COUNT,
    ensures
        column_sums(coefficients(y), y),
{
    lemma_coefficient(y, 0);
    lemma_coefficient(y, 1);
    lemma_coefficient(y, 2);
    lemma_coefficient(y, 3);
    lemma_coefficient(y, 4);
    lemma_coefficient(y, 5);
    lemma_coefficient(y, 6);
    lemma_coefficient(y, 7);
}

/// The predictions, written out: each is the coefficients, added up with
/// the signs of its row of the design.
pub proof fn lemma_predictions(b: Seq<int>, i: int)
    requires
        b.len() == EXPERIMENT_COUNT,
        0 <= i < EXPERIMENT_COUNT,
    ensures
        weighted(b, design_row(i), EXPERIMENT_COUNT as nat) == signed_sum(signs()[i], b),
        weighted(b, design_row(i), (PARAMS_COUNT + 1) as nat) == signed_sum_of_four(signs()[i], b),
        forall|k: int|
            0 <= k < EXPERIMENT_COUNT ==> #[trigger] product(b[k], design_row(i)[k]) == signed(
                signs()[i][k],
                b[k],
            ),
{
    lemma_design_signs(i);
    lemma_weighted_signs(design_row(i), signs()[i], b, false);
    assert forall|k: int| 0 <= k < EXPERIMENT_COUNT implies #[trigger] product(
        b[k],
        design_row(i)[k],
    ) == signed(signs()[i][k], b[k]) by {
        assert(product(design_row(i)[k], b[k]) == signed(signs()[i][k], b[k]));
    }
}

/// Added up with the signs of row `i` of the design, the sums of eight
/// numbers with the signs of its columns give eight times the number `i`.
pub proof fn lemma_rows_against_columns(t: Seq<int>, b: Seq<int>, i: int)
    requires
        column_sums(b, t),
        0 <= i < EXPERIMENT_COUNT,
    ensures
        signed_sum(signs()[i], b) == 8 * t[i],
{
    let s = signs()[i];
    if i == 0 {
        assert(s =~= seq![1, -1, -1, -1, 1, 1, 1, -1]);
    } else if i == 1 {
        assert(s =~= seq![1, -1, -1, 1, 1, -1, -1, 1]);
    } else if i == 2 {
        assert(s =~= seq![1, -1, 1, -1, -1, 1, -1, 1]);
    } else if i == 3 {
        assert(s =~= seq![1, -1, 1, 1, -1, -1, 1, -1]);
    } else if i == 4 {
        assert(s =~= seq![1, 1, -1, -1, -1, -1, 1, 1]);
    } else if i == 5 {
        assert(s =~= seq![1, 1, -1, 1, -1, 1, -1, -1]);
    } else if i == 6 {
        assert(s =~= seq![1, 1, 1, -1, 1, -1, -1, -1]);
    } else {
        assert(s =~= seq![1, 1, 1, 1, 1, 1, 1, 1]);
    }
}

/// The model with all its terms gives back the responses that it was fitted
/// to, to the millionth: the coefficients are held fine enough for the
/// division by the number of rows to lose nothing.
pub proof fn lemma_saturated_fit(y: Seq<int>, i: int)
    requires
        y.len() == EXPERIMENT_COUNT,
        0 <= i < EXPERIMENT_COUNT,
    ensures
        weighted(coefficients(y), design_row(i), EXPERIMENT_COUNT as nat) == 8 * y[i],
        non_linear_spec(coefficients(y), design_row(i)) == y[i],
{
    let b = coefficients(y);
    lemma_coefficients(y);
    lemma_predictions(b, i);
    lemma_rows_against_columns(y, b, i);
    lemma_truncated_multiple(y[i], 8);
    assert(8 * y[i] == y[i] * 8);
}

/// Two columns of the design, taken against each other, cancel, and a
/// column against itself gives the number of rows.
pub proof fn lemma_columns_against_columns(t: Seq<int>, b: Seq<int>, k: int, i: int)
    requires
        column_sums(b, t),
        0 <= i < EXPERIMENT_COUNT,
        0 <= k < EXPERIMENT_COUNT,
        forall|j: int| 0 <= j < EXPERIMENT_COUNT ==> #[trigger] t[j] == sign_column(k)[j] * ONE,
    ensures
        b[i] == if i == k {
            COEFFICIENT_ONE as int
        } else {
            0
        },
{
    let c = sign_column(k);
    assert(t[0] == c[0] * ONE && t[1] == c[1] * ONE && t[2] == c[2] * ONE && t[3] == c[3] * ONE
        && t[4] == c[4] * ONE && t[5] == c[5] * ONE && t[6] == c[6] * ONE && t[7] == c[7] * ONE);
    if k == 0 {
        assert(c =~= seq![1, 1, 1, 1, 1, 1, 1, 1]);
    } else if k == 1 {
        assert(c =~= seq![-1, -1, -1, -1, 1, 1, 1, 1]);
    } else if k == 2 {
        assert(c =~= seq![-1, -1, 1, 1, -1, -1, 1, 1]);
    } else if k == 3 {
        assert(c =~= seq![-1, 1, -1, 1, -1, 1, -1, 1]);
    } else if k == 4 {
        assert(c =~= seq![1, 1, -1, -1, -1, -1, 1, 1]);
    } else if k == 5 {
        assert(c =~= seq![1, -1, 1, -1, -1, 1, -1, 1]);
    } else if k == 6 {
        assert(c =~= seq![1, -1, -1, 1, 1, -1, -1, 1]);
    } else {
        assert(c =~= seq![-1, 1, 1, -1, 1, -1, -1, 1]);
    }
}

/// The coefficients solve the design: fitted to the responses that are
/// column `k` of the design, coefficient `k` is one and every other is zero.
/// So the matrix that gives the coefficients is the inverse of the design.
pub proof fn lemma_solver_inverts(i: int, k: int)
    requires
        0 <= i < EXPERIMENT_COUNT,
        0 <= k < EXPERIMENT_COUNT,
    ensures
        coefficients(design_column(k))[i] == if i == k {
            COEFFICIENT_ONE as int
        } else {
            0
        },
{
    let y = design_column(k);
    lemma_coefficients(y);
    assert forall|j: int| 0 <= j < EXPERIMENT_COUNT implies #[trigger] y[j] == sign_column(k)[j]
        * ONE by {
        lemma_design_entry(j, k);
    }
    lemma_columns_against_columns(y, coefficients(y), k, i);
}

/// A sum of numbers with signs is no larger than the numbers are together.
pub proof fn lemma_signed_sum_bound(s: Seq<int>, v: Seq<int>, bound: int)
    requires
        v.len() == EXPERIMENT_COUNT,
        forall|k: int| 0 <= k < EXPERIMENT_COUNT ==> -bound <= #[trigger] v[k] <= bound,
    ensures
        -8 * bound <= signed_sum(s, v) <= 8 * bound,
        -4 * bound <= signed_sum_of_four(s, v) <= 4 * bound,
        forall|k: int|
            0 <= k < EXPERIMENT_COUNT ==> -bound <= #[trigger] signed(s[k], v[k]) <= bound,
{
    assert(-bound <= v[0] <= bound);
    assert(-bound <= v[1] <= bound);
    assert(-bound <= v[2] <= bound);
    assert(-bound <= v[3] <= bound);
    assert(-bound <= v[4] <= bound);
    assert(-bound <= v[5] <= bound);
    assert(-bound <= v[6] <= bound);
    assert(-bound <= v[7] <= bound);
    assert forall|k: int| 0 <= k < EXPERIMENT_COUNT implies -bound <= #[trigger] signed(
        s[k],
        v[k],
    ) <= bound by {
        assert(-bound <= v[k] <= bound);
    }
}

/// With responses of up to 2^56 millionths in size, the coefficients have
/// room on the way and stay within 2^59.
pub proof fn lemma_coefficients_fit(y: Seq<int>, i: int)
    requires
        y.len() == EXPERIMENT_COUNT,
        0 <= i < EXPERIMENT_COUNT,
        forall|j: int|
            0 <= j < EXPERIMENT_COUNT ==> -0x100_0000_0000_0000 <= #[trigger] y[j]
                <= 0x100_0000_0000_0000,
    ensures
        weighted_fits(solver_row(i), y, EXPERIMENT_COUNT as nat),
        -0x800_0000_0000_0000 <= coefficients(y)[i] <= 0x800_0000_0000_0000,
{
    let s = sign_column(i);
    lemma_signed_sum_bound(s, y, 0x100_0000_0000_0000);
    assert(weighted(solver_row(i), y, EXPERIMENT_COUNT as nat) == signed_sum(s, y) && forall|
        j: int,
    |
        0 <= j < EXPERIMENT_COUNT ==> #[trigger] product(solver_row(i)[j], y[j]) == signed(
            s[j],
            y[j],
        )) by {
        lemma_design_signs(i);
        lemma_weighted_signs(solver_row(i), s, y, true);
    }
}

/// With coefficients of up to 2^59 in size, the predictions at the rows of
/// the design have room on the way.
pub proof fn lemma_predictions_fit(b: Seq<int>, i: int)
    requires
        b.len() == EXPERIMENT_COUNT,
        0 <= i < EXPERIMENT_COUNT,
        forall|k: int|
            0 <= k < EXPERIMENT_COUNT ==> -0x800_0000_0000_0000 <= #[trigger] b[k]
                <= 0x800_0000_0000_0000,
    ensures
        weighted_fits(b, design_row(i), (PARAMS_COUNT + 1) as nat),
        weighted_fits(b, design_row(i), EXPERIMENT_COUNT as nat),
{
    lemma_signed_sum_bound(signs()[i], b, 0x800_0000_0000_0000);
    lemma_predictions(b, i);
}

/// The regression on responses of up to 2^56 millionths in size never runs
/// out of room.
pub proof fn lemma_fit_accepts(y: Seq<int>)
    requires
        y.len() == EXPERIMENT_COUNT,
        forall|j: int|
            0 <= j < EXPERIMENT_COUNT ==> -0x100_0000_0000_0000 <= #[trigger] y[j]
                <= 0x100_0000_0000_0000,
    ensures
        fit_accepts(y),
{
    let b = coefficients(y);
    assert forall|i: int| 0 <= i < EXPERIMENT_COUNT implies #[trigger] weighted_fits(
        solver_row(i),
        y,
        EXPERIMENT_COUNT as nat,
    ) by {
        lemma_coefficients_fit(y, i);
    }
    assert forall|k: int| 0 <= k < EXPERIMENT_COUNT implies -0x800_0000_0000_0000 <= #[trigger] b[k]
        <= 0x800_0000_0000_0000 by {
        lemma_coefficients_fit(y, k);
    }
    assert forall|i: int| 0 <= i < EXPERIMENT_COUNT implies #[trigger] weighted_fits(
        b,
        design_row(i),
        (PARAMS_COUNT + 1) as nat,
    ) by {
        lemma_predictions_fit(b, i);
    }
    assert forall|i: int| 0 <= i < EXPERIMENT_COUNT implies #[trigger] weighted_fits(
        b,
        design_row(i),
        EXPERIMENT_COUNT as nat,
    ) by {
        lemma_predictions_fit(b, i);
    }
}

} // verus!
