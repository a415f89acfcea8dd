//! The two-level factorial experiment over the engine: the coded design, the
//! runs at its corners, and the regression on what they gave.

use vstd::prelude::*;
use crate::fixed::{abs_diff, distance, fits, product, times, ONE};
use crate::model::generator::RayleighGenerator;
use crate::model::random::RandomSource;
use crate::model::service::NormalService;
use crate::model::{Model, ModelError, ModelParams};
use crate::planned_experiment::design::{
    checked_product, coded_row, design, design_row, ints, lemma_design_entry, level, point_row,
    solver_row,
};
use crate::planned_experiment::regression::{
    coefficients, compare_refusal, fit_accepts, lemma_saturated_fit, linear_spec, non_linear_spec,
    predicted, weighted, weighted_fits,
};
use crate::planned_experiment::scaling::{
    corner_accepted, lemma_scale_ends, lemma_scale_in_range, measured, measured_at_corner,
    point_accepted, scale_inv_spec, scale_spec, stationed,
};

pub mod design;
pub mod regression;
pub mod scaling;

verus! {

/// How many factors the experiment varies.
pub const PARAMS_COUNT: usize = 3;

/// How many corners the design has: two levels of each of three factors.
pub const EXPERIMENT_COUNT: usize = 8;

/// The number one in the unit of the coefficients: they are held in eighths
/// of a millionth, so that the division by the number of rows loses nothing.
pub const COEFFICIENT_ONE: i64 = 8_000_000;

/// The low coded level, in millionths.
pub const XMIN: i64 = -1_000_000;

/// The high coded level, in millionths.
pub const XMAX: i64 = 1_000_000;

/// The two ends of a factor's range, the one for the low level first, in
/// millionths.
pub type ParamRange = (u64, u64);

/// A row of the design: the constant, the three coded levels, their three
/// products in pairs and the product of all three, in millionths.
pub type PlannedExperimentSingle = [i64; EXPERIMENT_COUNT];

/// The product of the first and the second level of a row.
pub fn x12(row: &PlannedExperimentSingle) -> (r: Option<i64>)
    ensures
        r == checked_product(row[1] as int, row[2] as int),
{
    times(row[1], row[2])
}

/// The product of the first and the third level of a row.
pub fn x13(row: &PlannedExperimentSingle) -> (r: Option<i64>)
    ensures
        r == checked_product(row[1] as int, row[3] as int),
{
    times(row[1], row[3])
}

/// The product of the second and the third level of a row.
pub fn x23(row: &PlannedExperimentSingle) -> (r: Option<i64>)
    ensures
        r == checked_product(row[2] as int, row[3] as int),
{
    times(row[2], row[3])
}

/// The product of all three levels of a row: that of the first two, times
/// the third.
pub fn x123(row: &PlannedExperimentSingle) -> (r: Option<i64>)
    ensures
        r == match checked_product(row[1] as int, row[2] as int) {
            Some(p) => checked_product(p as int, row[3] as int),
            None => None,
        },
{
    match times(row[1], row[2]) {
        Some(p) => times(p, row[3]),
        None => None,
    }
}

/// The coded level for a factor that is at its high end, or at its low end.
pub fn bool_to_val(b: bool) -> (r: i64)
    ensures
        r == level(b),
{
    if b {
        XMAX
    } else {
        XMIN
    }
}

/// The row with the three levels given and the products that follow from
/// them, where each has a place in 64 bits.
pub fn row_of(x1: i64, x2: i64, x3: i64) -> (r: Option<PlannedExperimentSingle>)
    ensures
        r is Some <==> fits(product(x1 as int, x2 as int)) && fits(product(x1 as int, x3 as int))
            && fits(product(x2 as int, x3 as int)) && fits(
            product(product(x1 as int, x2 as int), x3 as int),
        ),
        r is Some ==> ints(r->Some_0@) == coded_row(x1 as int, x2 as int, x3 as int),
{
    let mut row: PlannedExperimentSingle = [ONE, x1, x2, x3, 0, 0, 0, 0];
    let p12 = x12(&row);
    let p13 = x13(&row);
    let p23 = x23(&row);
    let p123 = x123(&row);
    match (p12, p13, p23, p123) {
        (Some(p12), Some(p13), Some(p23), Some(p123)) => {
            row[4] = p12;
            row[5] = p13;
            row[6] = p23;
            row[7] = p123;
            Some(row)
        },
        _ => None,
    }
}

/// The design and the horizon of the runs at its corners.
pub struct PlannedExperimentMatrix {
    experiments: [PlannedExperimentSingle; EXPERIMENT_COUNT],
    model_params: ModelParams,
}

impl View for PlannedExperimentMatrix {
    type V = Seq<Seq<int>>;

    /// The rows of the matrix.
    closed spec fn view(&self) -> Seq<Seq<int>> {
        Seq::new(EXPERIMENT_COUNT as nat, |i: int| ints(self.experiments@[i]@))
    }
}

impl PlannedExperimentMatrix {
    #[verifier::type_invariant]
    closed spec fn holds(self) -> bool {
        forall|i: int|
            0 <= i < EXPERIMENT_COUNT ==> ints(#[trigger] self.experiments@[i]@) == design_row(i)
    }

    /// The horizon of the runs.
    pub closed spec fn model_time(&self) -> u64 {
        self.model_params.model_time
    }

    /// What the runs are made with.
    pub fn model_params(&self) -> (p: ModelParams)
        ensures
            p.model_time == self.model_time(),
    {
        self.model_params
    }

    /// The design for runs up to the horizon in `model_params`.
    pub fn new(model_params: ModelParams) -> (m: Self)
        ensures
            m@ == design(),
            m.model_time() == model_params.model_time,
    {
        let mut experiments: [PlannedExperimentSingle; EXPERIMENT_COUNT] = [[0i64;
            EXPERIMENT_COUNT]; EXPERIMENT_COUNT];
        let mut i: usize = 0;
        while i < EXPERIMENT_COUNT
            invariant
                i <= EXPERIMENT_COUNT,
                forall|j: int| 0 <= j < i ==> ints(#[trigger] experiments@[j]@) == design_row(j),
            decreases EXPERIMENT_COUNT - i,
        {
            proof {
                assert(i < 8 ==> ((i & 4 != 0) == ((i / 4) % 2 == 1)) && ((i & 2 != 0) == ((i / 2)
                    % 2 == 1)) && ((i & 1 != 0) == (i % 2 == 1))) by (bit_vector);
            }
            let row = row_of(
                bool_to_val(i & 4 != 0),
                bool_to_val(i & 2 != 0),
                bool_to_val(i & 1 != 0),
            );
            let ghost before = experiments;
            experiments[i] = row.unwrap();
            i += 1;
        }
        let m = PlannedExperimentMatrix { experiments, model_params };
        m
    }

    /// Gives up the matrix for its rows.
    pub fn take_experiments(self) -> (rows: [PlannedExperimentSingle; EXPERIMENT_COUNT])
        ensures
            forall|i: int|
                0 <= i < EXPERIMENT_COUNT ==> ints(#[trigger] rows@[i]@) == design_row(i),
    {
        proof {
            use_type_invariant(&self);
        }
        self.experiments
    }
}

impl PlannedExperimentMatrix {
    /// The value of a factor with the range `r` at the coded level `x`. A
    /// level outside the design, below the low or above the high one,
    /// decodes to nothing.
    pub fn scale(x: i64, r: ParamRange) -> (v: Option<u64>)
        ensures
            v is Some <==> XMIN <= x <= XMAX,
            v is Some ==> v->Some_0 == scale_spec(x as int, r.0 as int, r.1 as int),
    {
        if x < XMIN || x > XMAX {
            return None;
        }
        let w: i128 = x as i128 - XMIN as i128;
        let d: i128 = r.1 as i128 - r.0 as i128;
        proof {
            lemma_scale_in_range(x as int, r.0 as int, r.1 as int);
        }
        let q: i128 = (d * w) / 2_000_000;
        Some((r.0 as i128 + q) as u64)
    }

    /// The coded level of the value `x` of a factor with the range `r`. A
    /// range without a width codes nothing, and a level needs a place in 64
    /// bits.
    pub fn scale_inv(x: u64, r: ParamRange) -> (v: Result<i64, ModelError>)
        ensures
            match v {
                Ok(level) => r.0 != r.1 && level == scale_inv_spec(
                    x as int,
                    r.0 as int,
                    r.1 as int,
                ),
                Err(e) => if r.0 == r.1 {
                    e == ModelError::InvalidDistributionParameters
                } else {
                    e == ModelError::Overflow && !fits(
                        scale_inv_spec(x as int, r.0 as int, r.1 as int),
                    )
                },
            },
    {
        if r.0 == r.1 {
            return Err(ModelError::InvalidDistributionParameters);
        }
        let off: i128 = 2 * (x as i128) - r.1 as i128 - r.0 as i128;
        let d: i128 = r.1 as i128 - r.0 as i128;
        let n: i128 = 1_000_000 * off;
        let q: i128 = if d > 0 {
            n / d
        } else {
            (-n) / (-d)
        };
        if q < i64::MIN as i128 || q > i64::MAX as i128 {
            Err(ModelError::Overflow)
        } else {
            Ok(q as i64)
        }
    }
}

/// The first `n` products of a coefficient and the level beside it, added
/// up, where each product and the sum have a place in 64 bits.
fn weigh(c: &PlannedExperimentSingle, x: &PlannedExperimentSingle, n: usize) -> (r: Option<i64>)
    requires
        n <= EXPERIMENT_COUNT,
    ensures
        r is Some <==> weighted_fits(ints(c@), ints(x@), n as nat),
        r is Some ==> r->Some_0 == weighted(ints(c@), ints(x@), n as nat),
{
    let mut sum: i128 = 0;
    let mut k: usize = 0;
    while k < n
        invariant
            k <= n <= EXPERIMENT_COUNT,
            sum == weighted(ints(c@), ints(x@), k as nat),
            -k * 0x8000_0000_0000_0000 <= sum <= k * 0x8000_0000_0000_0000,
            forall|j: int| 0 <= j < k ==> fits(#[trigger] product(ints(c@)[j], ints(x@)[j])),
        decreases n - k,
    {
        match times(c[k], x[k]) {
            Some(p) => {
                sum = sum + p as i128;
            },
            None => {
                assert(!fits(product(ints(c@)[k as int], ints(x@)[k as int])));
                return None;
            },
        }
        k += 1;
    }
    if sum < i64::MIN as i128 || sum > i64::MAX as i128 {
        None
    } else {
        Some(sum as i64)
    }
}

/// What a regression gives: the coefficients, the responses that they were
/// worked out from, and what the model predicts at each row of the design,
/// from the constant and the three levels alone and from all its terms.
#[derive(Clone, Copy, Debug, PartialEq, Eq)]
pub struct PlannedExperimentResult {
    /// The coefficients, in eighths of a millionth.
    pub b: [i64; EXPERIMENT_COUNT],
    /// The responses.
    pub y: [i64; EXPERIMENT_COUNT],
    /// The predictions from the constant and the three levels.
    pub y_linear: [i64; EXPERIMENT_COUNT],
    /// The predictions from all terms.
    pub y_non_linear: [i64; EXPERIMENT_COUNT],
}

impl PlannedExperimentResult {
    /// How far the linear prediction at row `i` lies from the response.
    pub fn y_linear_delta(&self, i: usize) -> (d: u64)
        requires
            i < EXPERIMENT_COUNT,
        ensures
            d == distance(self.y[i as int] as int, self.y_linear[i as int] as int),
    {
        abs_diff(self.y[i], self.y_linear[i])
    }

    /// How far the prediction from all terms at row `i` lies from the
    /// response.
    pub fn y_non_linear_delta(&self, i: usize) -> (d: u64)
        requires
            i < EXPERIMENT_COUNT,
        ensures
            d == distance(self.y[i as int] as int, self.y_non_linear[i as int] as int),
    {
        abs_diff(self.y[i], self.y_non_linear[i])
    }

    /// The result is what the regression on its responses gives: the
    /// coefficients that solve the design for them, in eighths of a
    /// millionth, what the model predicts from the constant and the three
    /// levels, and what it predicts from all its terms, which is the
    /// responses again.
    pub open spec fn fitted(self) -> bool {
        &&& ints(self.b@) == coefficients(ints(self.y@))
        &&& forall|i: int|
            0 <= i < EXPERIMENT_COUNT ==> #[trigger] self.y_linear[i] == linear_spec(
                coefficients(ints(self.y@)),
                design_row(i),
            )
        &&& forall|i: int|
            0 <= i < EXPERIMENT_COUNT ==> #[trigger] self.y_non_linear[i] == non_linear_spec(
                coefficients(ints(self.y@)),
                design_row(i),
            )
        &&& forall|i: int|
            0 <= i < EXPERIMENT_COUNT ==> #[trigger] self.y_non_linear[i] == self.y[i]
    }
}

impl PlannedExperimentMatrix {
    /// The matrix that gives the coefficients from the responses: the design
    /// across the diagonal, divided by the number of rows, in the unit of the
    /// coefficients.
    pub fn xmat(&self) -> (m: [PlannedExperimentSingle; EXPERIMENT_COUNT])
        ensures
            forall|i: int| 0 <= i < EXPERIMENT_COUNT ==> ints(#[trigger] m@[i]@) == solver_row(i),
    {
        proof {
            use_type_invariant(self);
        }
        let mut m: [PlannedExperimentSingle; EXPERIMENT_COUNT] = [[0i64; EXPERIMENT_COUNT];
            EXPERIMENT_COUNT];
        let mut i: usize = 0;
        while i < EXPERIMENT_COUNT
            invariant
                i <= EXPERIMENT_COUNT,
                forall|j: int|
                    0 <= j < EXPERIMENT_COUNT ==> ints(#[trigger] self.experiments@[j]@)
                        == design_row(j),
                forall|k: int| 0 <= k < i ==> ints(#[trigger] m@[k]@) == solver_row(k),
            decreases EXPERIMENT_COUNT - i,
        {
            let mut row: PlannedExperimentSingle = [0i64; EXPERIMENT_COUNT];
            let mut j: usize = 0;
            while j < EXPERIMENT_COUNT
                invariant
                    i < EXPERIMENT_COUNT,
                    j <= EXPERIMENT_COUNT,
                    forall|l: int|
                        0 <= l < EXPERIMENT_COUNT ==> ints(#[trigger] self.experiments@[l]@)
                            == design_row(l),
                    forall|l: int| 0 <= l < j ==> #[trigger] row@[l] == solver_row(i as int)[l],
                decreases EXPERIMENT_COUNT - j,
            {
                let entry = self.experiments[j][i];
                proof {
                    assert(ints(self.experiments@[j as int]@)[i as int] == design_row(
                        j as int,
                    )[i as int]);
                    lemma_design_entry(j as int, i as int);
                }
                let cell = (entry as i128 * 8_000_000) / 8_000_000;
                let ghost before = row;
                row[j] = cell as i64;
                proof {
                    assert forall|l: int| 0 <= l < j + 1 implies #[trigger] row@[l] == solver_row(
                        i as int,
                    )[l] by {
                        if l < j {
                            assert(row@[l] == before@[l]);
                        }
                    }
                }
                j += 1;
            }
            let ghost before = m;
            m[i] = row;
            proof {
                assert(ints(row@) =~= solver_row(i as int));
                assert forall|k: int| 0 <= k < i + 1 implies ints(#[trigger] m@[k]@) == solver_row(
                    k,
                ) by {
                    if k < i {
                        assert(m@[k] == before@[k]);
                    }
                }
            }
            i += 1;
        }
        m
    }

    /// What the model with the coefficients `b` predicts at the row `x` from
    /// the constant and the three levels alone, in millionths, where every
    /// product and the sum have a place in 64 bits.
    pub fn linear(b: &[i64; EXPERIMENT_COUNT], x: &PlannedExperimentSingle) -> (r: Option<i64>)
        ensures
            r is Some <==> weighted_fits(ints(b@), ints(x@), (PARAMS_COUNT + 1) as nat),
            r is Some ==> r->Some_0 == linear_spec(ints(b@), ints(x@)),
    {
        match weigh(b, x, PARAMS_COUNT + 1) {
            Some(sum) => Some(sum / 8),
            None => None,
        }
    }

    /// What the model with the coefficients `b` predicts at the row `x` from
    /// all its terms, in millionths, where every product and the sum have a
    /// place in 64 bits.
    pub fn non_linear(b: &[i64; EXPERIMENT_COUNT], x: &PlannedExperimentSingle) -> (r: Option<
        i64,
    >)
        ensures
            r is Some <==> weighted_fits(ints(b@), ints(x@), EXPERIMENT_COUNT as nat),
            r is Some ==> r->Some_0 == non_linear_spec(ints(b@), ints(x@)),
    {
        match weigh(b, x, EXPERIMENT_COUNT) {
            Some(sum) => Some(sum / 8),
            None => None,
        }
    }

    /// The regression on the responses `y`: the coefficients that solve the
    /// design for them, and what the model predicts at each row. It fails
    /// where a number that it works out has no place in 64 bits.
    pub fn fit(&self, y: [i64; EXPERIMENT_COUNT]) -> (r: Result<
        PlannedExperimentResult,
        ModelError,
    >)
        ensures
            r is Ok <==> fit_accepts(ints(y@)),
            r is Ok ==> r->Ok_0.y == y && r->Ok_0.fitted(),
            r is Err ==> r->Err_0 == ModelError::Overflow,
    {
        proof {
            use_type_invariant(self);
        }
        let xmat = self.xmat();
        let mut b = [0i64; EXPERIMENT_COUNT];
        let mut i: usize = 0;
        while i < EXPERIMENT_COUNT
            invariant
                i <= EXPERIMENT_COUNT,
                forall|k: int|
                    0 <= k < EXPERIMENT_COUNT ==> ints(#[trigger] xmat@[k]@) == solver_row(k),
                forall|k: int|
                    0 <= k < i ==> #[trigger] b@[k] == coefficients(ints(y@))[k] && weighted_fits(
                        solver_row(k),
                        ints(y@),
                        EXPERIMENT_COUNT as nat,
                    ),
            decreases EXPERIMENT_COUNT - i,
        {
            proof {
                assert(ints(xmat@[i as int]@) == solver_row(i as int));
            }
            let ghost before = b;
            match weigh(&xmat[i], &y, EXPERIMENT_COUNT) {
                Some(v) => {
                    b[i] = v;
                },
                None => {
                    assert(!weighted_fits(solver_row(i as int), ints(y@), EXPERIMENT_COUNT as nat));
                    return Err(ModelError::Overflow);
                },
            }
            proof {
                assert forall|k: int| 0 <= k < i + 1 implies #[trigger] b@[k] == coefficients(
                    ints(y@),
                )[k] && weighted_fits(solver_row(k), ints(y@), EXPERIMENT_COUNT as nat) by {
                    if k < i {
                        assert(b@[k] == before@[k]);
                    }
                }
            }
            i += 1;
        }
        assert(ints(b@) =~= coefficients(ints(y@)));
        assert forall|k: int| 0 <= k < EXPERIMENT_COUNT implies #[trigger] weighted_fits(
            solver_row(k),
            ints(y@),
            EXPERIMENT_COUNT as nat,
        ) by {
            assert(b@[k] == coefficients(ints(y@))[k]);
        }
        let mut y_linear = [0i64; EXPERIMENT_COUNT];
        let mut y_non_linear = [0i64; EXPERIMENT_COUNT];
        let mut i: usize = 0;
        while i < EXPERIMENT_COUNT
            invariant
                i <= EXPERIMENT_COUNT,
                ints(b@) == coefficients(ints(y@)),
                forall|j: int|
                    0 <= j < EXPERIMENT_COUNT ==> ints(#[trigger] self.experiments@[j]@)
                        == design_row(j),
                forall|k: int| 0 <= k < i ==> #[trigger] predicted(y_linear@, ints(y@), k, 4),
                forall|k: int| 0 <= k < i ==> #[trigger] predicted(y_non_linear@, ints(y@), k, 8),
            decreases EXPERIMENT_COUNT - i,
        {
            let row = self.experiments[i];
            proof {
                assert(ints(self.experiments@[i as int]@) == design_row(i as int));
                assert(ints(row@) == design_row(i as int));
            }
            let ghost linear_before = y_linear;
            let ghost non_linear_before = y_non_linear;
            match (Self::linear(&b, &row), Self::non_linear(&b, &row)) {
                (Some(l), Some(n)) => {
                    y_linear[i] = l;
                    y_non_linear[i] = n;
                },
                _ => {
                    assert(!weighted_fits(
                        coefficients(ints(y@)),
                        design_row(i as int),
                        (PARAMS_COUNT + 1) as nat,
                    ) || !weighted_fits(
                        coefficients(ints(y@)),
                        design_row(i as int),
                        EXPERIMENT_COUNT as nat,
                    ));
                    return Err(ModelError::Overflow);
                },
            }
            proof {
                assert forall|k: int| 0 <= k < i + 1 implies #[trigger] predicted(
                    y_linear@,
                    ints(y@),
                    k,
                    4,
                ) by {
                    if k < i {
                        assert(predicted(linear_before@, ints(y@), k, 4));
                        assert(y_linear@[k] == linear_before@[k]);
                    }
                }
                assert forall|k: int| 0 <= k < i + 1 implies #[trigger] predicted(
                    y_non_linear@,
                    ints(y@),
                    k,
                    8,
                ) by {
                    if k < i {
                        assert(predicted(non_linear_before@, ints(y@), k, 8));
                        assert(y_non_linear@[k] == non_linear_before@[k]);
                    }
                }
            }
            i += 1;
        }
        proof {
            assert forall|k: int| 0 <= k < EXPERIMENT_COUNT implies #[trigger] weighted_fits(
                coefficients(ints(y@)),
                design_row(k),
                (PARAMS_COUNT + 1) as nat,
            ) by {
                assert(predicted(y_linear@, ints(y@), k, 4));
            }
            assert forall|k: int| 0 <= k < EXPERIMENT_COUNT implies #[trigger] weighted_fits(
                coefficients(ints(y@)),
                design_row(k),
                EXPERIMENT_COUNT as nat,
            ) by {
                assert(predicted(y_non_linear@, ints(y@), k, 8));
            }
            assert forall|k: int| 0 <= k < EXPERIMENT_COUNT implies #[trigger] y_linear[k]
                == linear_spec(coefficients(ints(y@)), design_row(k)) by {
                assert(predicted(y_linear@, ints(y@), k, 4));
            }
            assert forall|k: int| 0 <= k < EXPERIMENT_COUNT implies #[trigger] y_non_linear[k]
                == non_linear_spec(coefficients(ints(y@)), design_row(k)) by {
                assert(predicted(y_non_linear@, ints(y@), k, 8));
            }
            assert forall|k: int| 0 <= k < EXPERIMENT_COUNT implies #[trigger] y_non_linear[k]
                == y[k] by {
                assert(predicted(y_non_linear@, ints(y@), k, 8));
                lemma_saturated_fit(ints(y@), k);
            }
        }
        Ok(PlannedExperimentResult { b, y, y_linear, y_non_linear })
    }
}

/// A station of one arrival process with `gen_intensity` arrivals per unit
/// of time and one server that completes `svc_intensity` jobs per unit of
/// time with the spread `svc_sigma`, all in millionths; the first two
/// arrivals come from `rng`. Values that no station can be made for are
/// refused before anything is drawn.
pub fn station<R: RandomSource>(
    model_params: ModelParams,
    gen_intensity: u64,
    svc_intensity: u64,
    svc_sigma: u64,
    rng: &mut R,
) -> (r: Result<Model, ModelError>)
    ensures
        !point_accepted(gen_intensity, svc_intensity, svc_sigma) ==> r == Err::<Model, ModelError>(
            ModelError::InvalidDistributionParameters,
        ),
        match r {
            Ok(model) => stationed(
                model@,
                model_params.model_time,
                gen_intensity,
                svc_intensity,
                svc_sigma,
            ),
            Err(e) => e != ModelError::EmptySystem,
        },
{
    let mut model = Model::new(model_params);
    let svc = NormalService::from_intensity(svc_intensity, svc_sigma, rng)?;
    let gen = RayleighGenerator::from_intensity(gen_intensity, rng)?;
    model.add_service(svc);
    model.add_generator(gen);
    Ok(model)
}

/// What the comparison of a fitted model with a run at one point gives.
#[derive(Clone, Copy, Debug, PartialEq, Eq)]
pub struct PlannedExperimentResultSingle {
    /// The row of the point: the constant, its three coded levels and their
    /// products.
    pub xrow: PlannedExperimentSingle,
    /// The response measured at the point.
    pub y: i64,
    /// The prediction from the constant and the three levels.
    pub y_linear: i64,
    /// The prediction from all terms.
    pub y_non_linear: i64,
    /// How far the linear prediction lies from the response.
    pub y_linear_delta: u64,
    /// How far the prediction from all terms lies from the response.
    pub y_non_linear_delta: u64,
}

impl PlannedExperimentResultSingle {
    /// The result is the comparison of the model with the coefficients `b`
    /// with the response `self.y` at the point given.
    pub open spec fn compares(
        self,
        gen_intensity: u64,
        svc_intensity: u64,
        svc_sigma: u64,
        ranges: Seq<ParamRange>,
        b: Seq<int>,
    ) -> bool {
        let row = point_row(gen_intensity, svc_intensity, svc_sigma, ranges);
        &&& ints(self.xrow@) == row
        &&& self.y_linear == linear_spec(b, row)
        &&& self.y_non_linear == non_linear_spec(b, row)
        &&& self.y_linear_delta == distance(self.y as int, self.y_linear as int)
        &&& self.y_non_linear_delta == distance(self.y as int, self.y_non_linear as int)
    }
}

impl PlannedExperimentMatrix {
    /// Compares the model with the coefficients `b`, fitted over
    /// `param_ranges`, with the response `y` measured at a point: codes the
    /// point's three values, and gives the row, the two predictions, and how
    /// far each lies from `y`.
    pub fn compare(
        y: i64,
        gen_intensity: u64,
        svc_intensity: u64,
        svc_sigma: u64,
        param_ranges: [ParamRange; PARAMS_COUNT],
        b: [i64; EXPERIMENT_COUNT],
    ) -> (r: Result<PlannedExperimentResultSingle, ModelError>)
        ensures
            match r {
                Ok(single) => compare_refusal(
                    gen_intensity,
                    svc_intensity,
                    svc_sigma,
                    param_ranges@,
                    ints(b@),
                ) is None && single.y == y && single.compares(
                    gen_intensity,
                    svc_intensity,
                    svc_sigma,
                    param_ranges@,
                    ints(b@),
                ),
                Err(e) => compare_refusal(
                    gen_intensity,
                    svc_intensity,
                    svc_sigma,
                    param_ranges@,
                    ints(b@),
                ) == Some(e),
            },
    {
        let x1 = Self::scale_inv(gen_intensity, param_ranges[0])?;
        let x2 = Self::scale_inv(svc_intensity, param_ranges[1])?;
        let x3 = Self::scale_inv(svc_sigma, param_ranges[2])?;
        let xrow = match row_of(x1, x2, x3) {
            Some(xrow) => xrow,
            None => {
                return Err(ModelError::Overflow);
            },
        };
        let y_linear = match Self::linear(&b, &xrow) {
            Some(v) => v,
            None => {
                return Err(ModelError::Overflow);
            },
        };
        let y_non_linear = match Self::non_linear(&b, &xrow) {
            Some(v) => v,
            None => {
                return Err(ModelError::Overflow);
            },
        };
        Ok(
            PlannedExperimentResultSingle {
                xrow,
                y,
                y_linear,
                y_non_linear,
                y_linear_delta: abs_diff(y, y_linear),
                y_non_linear_delta: abs_diff(y, y_non_linear),
            },
        )
    }

    /// Runs a station at the point given `iterations` times, averages the
    /// load, and compares the model with the coefficients `b`, fitted over
    /// `param_ranges`, with it. The ranges are, in this order, those of the
    /// intensity of the arrivals, of the intensity of the service, and of the
    /// spread of the service times.
    pub fn run_single<R: RandomSource>(
        &self,
        iterations: usize,
        gen_intensity: u64,
        svc_intensity: u64,
        svc_sigma: u64,
        param_ranges: [ParamRange; PARAMS_COUNT],
        b: [i64; EXPERIMENT_COUNT],
        rng: &mut R,
    ) -> (r: Result<PlannedExperimentResultSingle, ModelError>)
        ensures
            iterations == 0 <==> r == Err::<PlannedExperimentResultSingle, ModelError>(
                ModelError::EmptySystem,
            ),
            iterations > 0 && !point_accepted(gen_intensity, svc_intensity, svc_sigma) ==> r
                == Err::<PlannedExperimentResultSingle, ModelError>(
                ModelError::InvalidDistributionParameters,
            ),
            r is Ok ==> {
                &&& 0 <= r->Ok_0.y <= ONE
                &&& measured(
                    self.model_time(),
                    gen_intensity,
                    svc_intensity,
                    svc_sigma,
                    iterations as nat,
                    r->Ok_0.y as int,
                )
                &&& compare_refusal(
                    gen_intensity,
                    svc_intensity,
                    svc_sigma,
                    param_ranges@,
                    ints(b@),
                ) is None
                &&& r->Ok_0.compares(
                    gen_intensity,
                    svc_intensity,
                    svc_sigma,
                    param_ranges@,
                    ints(b@),
                )
            },
    {
        if iterations == 0 {
            return Err(ModelError::EmptySystem);
        }
        let mut model = station(self.model_params, gen_intensity, svc_intensity, svc_sigma, rng)?;
        let y = model.replicate(iterations, rng)?.load_avg;
        Self::compare(y as i64, gen_intensity, svc_intensity, svc_sigma, param_ranges, b)
    }

    /// Runs a station at each corner of the design `iterations` times,
    /// averages the load, and fits the model to the eight averages. The
    /// ranges are, in this order, those of the intensity of the arrivals, of
    /// the intensity of the service, and of the spread of the service times.
    pub fn run<R: RandomSource>(
        &self,
        iterations: usize,
        param_ranges: [ParamRange; PARAMS_COUNT],
        rng: &mut R,
    ) -> (r: Result<PlannedExperimentResult, ModelError>)
        ensures
            iterations == 0 <==> r == Err::<PlannedExperimentResult, ModelError>(
                ModelError::EmptySystem,
            ),
            iterations > 0 && !corner_accepted(param_ranges@, 0) ==> r == Err::<
                PlannedExperimentResult,
                ModelError,
            >(ModelError::InvalidDistributionParameters),
            r is Ok ==> {
                &&& forall|i: int|
                    0 <= i < EXPERIMENT_COUNT ==> #[trigger] corner_accepted(param_ranges@, i)
                &&& forall|i: int| 0 <= i < EXPERIMENT_COUNT ==> 0 <= #[trigger] r->Ok_0.y[i] <= ONE
                &&& forall|i: int|
                    0 <= i < EXPERIMENT_COUNT ==> measured_at_corner(
                        self.model_time(),
                        param_ranges@,
                        i,
                        iterations as nat,
                        #[trigger] r->Ok_0.y[i] as int,
                    )
                &&& r->Ok_0.fitted()
            },
    {
        proof {
            use_type_invariant(self);
        }
        if iterations == 0 {
            return Err(ModelError::EmptySystem);
        }
        let mut y = [0i64; EXPERIMENT_COUNT];
        let mut i: usize = 0;
        while i < EXPERIMENT_COUNT
            invariant
                i <= EXPERIMENT_COUNT,
                forall|j: int|
                    0 <= j < EXPERIMENT_COUNT ==> ints(#[trigger] self.experiments@[j]@)
                        == design_row(j),
                forall|j: int| 0 <= j < i ==> #[trigger] corner_accepted(param_ranges@, j),
                forall|j: int| 0 <= j < i ==> 0 <= #[trigger] y@[j] <= ONE,
                forall|j: int|
                    0 <= j < i ==> measured_at_corner(
                        self.model_time(),
                        param_ranges@,
                        j,
                        iterations as nat,
                        #[trigger] y@[j] as int,
                    ),
                iterations > 0,
            decreases EXPERIMENT_COUNT - i,
        {
            let row = self.experiments[i];
            proof {
                lemma_scale_ends(param_ranges@[0].0 as int, param_ranges@[0].1 as int);
                lemma_scale_ends(param_ranges@[1].0 as int, param_ranges@[1].1 as int);
                lemma_scale_ends(param_ranges@[2].0 as int, param_ranges@[2].1 as int);
            }
            let gen_intensity = Self::scale(row[1], param_ranges[0]).unwrap();
            let svc_intensity = Self::scale(row[2], param_ranges[1]).unwrap();
            let svc_sigma = Self::scale(row[3], param_ranges[2]).unwrap();
            let mut model = station(
                self.model_params,
                gen_intensity,
                svc_intensity,
                svc_sigma,
                rng,
            )?;
            let load = model.replicate(iterations, rng)?.load_avg;
            y[i] = load as i64;
            i += 1;
        }
        self.fit(y)
    }
}

} // verus!
