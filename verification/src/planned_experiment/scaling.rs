//! Between the coded levels and the values of the factors.

use vstd::prelude::*;
use crate::fixed::{
    fits, lemma_truncated_bounds, lemma_truncated_multiple, quotient, truncated, ONE,
};
use crate::model::generator::{scale_of_intensity, RAYLEIGH_SCALE};
use crate::model::service::mean_of_intensity;
use crate::model::state::{averaged, ModelView};
use crate::model::{Averages, ModelError, Time, TICKS_PER_UNIT};
use crate::planned_experiment::{ParamRange, XMAX, XMIN};

verus! {

/// The value of a factor at the coded level `x`: the low end of its range at
/// the low level, the high end at the high level, and in proportion between
/// them.
pub open spec fn scale_spec(x: int, lo: int, hi: int) -> int {
    lo + truncated((hi - lo) * (x - XMIN), XMAX - XMIN)
}

/// The coded level of the value `x` of a factor: how far `x` lies from the
/// middle of the range, in half widths, in millionths.
pub open spec fn scale_inv_spec(x: int, lo: int, hi: int) -> int {
    quotient(ONE * (2 * x - hi - lo), hi - lo)
}

/// The end of the range `r` at which a factor stands: the high one or the
/// low one.
pub open spec fn corner(r: ParamRange, high: bool) -> u64 {
    if high {
        r.1
    } else {
        r.0
    }
}

/// A station of one arrival process and one server can be made for these
/// values of the three factors: neither intensity is zero or beyond what one
/// tick resolves, and the spread is not zero.
pub open spec fn point_accepted(gen_intensity: u64, svc_intensity: u64, svc_sigma: u64) -> bool {
    &&& 0 < gen_intensity <= RAYLEIGH_SCALE
    &&& 0 < svc_intensity <= TICKS_PER_UNIT * TICKS_PER_UNIT
    &&& svc_sigma > 0
}

/// The model is a station with one arrival process and one rested server,
/// made for these values of the three factors.
pub open spec fn stationed(
    m: ModelView,
    model_time: Time,
    gen_intensity: u64,
    svc_intensity: u64,
    svc_sigma: u64,
) -> bool {
    &&& m.model_time == model_time
    &&& m.generators.len() == 1
    &&& m.services.len() == 1
    &&& m.rested()
    &&& Some(m.generators[0].sigma) == scale_of_intensity(gen_intensity)
    &&& Some(m.services[0].mean) == mean_of_intensity(svc_intensity)
    &&& m.services[0].sigma == svc_sigma
}

/// `y` is the load that `runs` runs of a station made for these values of
/// the three factors gave on the average.
pub open spec fn measured(
    model_time: Time,
    gen_intensity: u64,
    svc_intensity: u64,
    svc_sigma: u64,
    runs: nat,
    y: int,
) -> bool {
    exists|m: ModelView, avg: Averages|
        {
            &&& #[trigger] averaged(m, runs, avg)
            &&& stationed(m, model_time, gen_intensity, svc_intensity, svc_sigma)
            &&& avg.load_avg == y
        }
}

/// `y` is the load measured at row `i` of the design over these ranges.
pub open spec fn measured_at_corner(
    model_time: Time,
    ranges: Seq<ParamRange>,
    i: int,
    runs: nat,
    y: int,
) -> bool {
    measured(
        model_time,
        corner(ranges[0], (i / 4) % 2 == 1),
        corner(ranges[1], (i / 2) % 2 == 1),
        corner(ranges[2], i % 2 == 1),
        runs,
        y,
    )
}

/// A station can be made for row `i` of the design over these ranges.
pub open spec fn corner_accepted(ranges: Seq<ParamRange>, i: int) -> bool {
    point_accepted(
        corner(ranges[0], (i / 4) % 2 == 1),
        corner(ranges[1], (i / 2) % 2 == 1),
        corner(ranges[2], i % 2 == 1),
    )
}

/// Why the value `x` of a factor with the range `r` has no coded level, if it
/// has none.
pub open spec fn coding_refusal(x: u64, r: ParamRange) -> Option<ModelError> {
    if r.0 == r.1 {
        Some(ModelError::InvalidDistributionParameters)
    } else if !fits(scale_inv_spec(x as int, r.0 as int, r.1 as int)) {
        Some(ModelError::Overflow)
    } else {
        None
    }
}

/// At the low level a factor is at the low end of its range, and at the
/// high level at the high end.
pub proof fn lemma_scale_ends(lo: int, hi: int)
    ensures
        scale_spec(XMIN as int, lo, hi) == lo,
        scale_spec(XMAX as int, lo, hi) == hi,
{
}

/// Between the two coded levels a factor stays between the ends of its
/// range.
pub proof fn lemma_scale_in_range(x: int, lo: int, hi: int)
    requires
        XMIN <= x <= XMAX,
    ensures
        lo <= hi ==> lo <= scale_spec(x, lo, hi) <= hi,
        hi <= lo ==> hi <= scale_spec(x, lo, hi) <= lo,
{
    let w = x - XMIN;
    let d = hi - lo;
    let full = XMAX - XMIN;
    lemma_truncated_bounds(d * w, full);
    if d >= 0 {
        assert(0 <= d * w <= d * full) by (nonlinear_arith)
            requires
                0 <= d,
                0 <= w <= full,
        ;
        assert(truncated(d * w, full) <= d) by (nonlinear_arith)
            requires
                full * truncated(d * w, full) <= d * w,
                d * w <= d * full,
                full > 0,
        ;
    } else {
        assert(d * full <= d * w <= 0) by (nonlinear_arith)
            requires
                d < 0,
                0 <= w <= full,
        ;
        assert(truncated(d * w, full) >= d) by (nonlinear_arith)
            requires
                full * truncated(d * w, full) >= d * w,
                d * w >= d * full,
                full > 0,
        ;
    }
}

/// Coding undoes decoding at the two levels of the design, whatever the
/// range, as long as it has a width.
pub proof fn lemma_scale_inverse(x: int, lo: int, hi: int)
    requires
        x == XMIN || x == XMAX,
        lo != hi,
    ensures
        scale_inv_spec(scale_spec(x, lo, hi), lo, hi) == x,
{
    let d = hi - lo;
    let one = ONE as int;
    if x == XMIN {
        if d > 0 {
            lemma_truncated_multiple(-one, d);
        } else {
            lemma_truncated_multiple(-one, -d);
        }
    } else {
        if d > 0 {
            lemma_truncated_multiple(one, d);
        } else {
            lemma_truncated_multiple(one, -d);
        }
    }
}

} // verus!
