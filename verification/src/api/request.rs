//! What the serving layer asks of the library. Times are in ticks; rates
//! and spreads are in millionths, coefficients in eighths of a millionth.

use vstd::prelude::*;
use crate::model::Time;
use crate::planned_experiment::{ParamRange, EXPERIMENT_COUNT};

verus! {

/// One run of a station with one arrival process and one server.
#[derive(Clone, Copy, Debug, PartialEq, Eq, Structural)]
pub struct ModelParams {
    /// The scale of the gaps between arrivals.
    pub generator_sigma: Time,
    /// The spread of the service times.
    pub service_sigma: Time,
    /// The mean of the service times.
    pub service_mean: Time,
    /// The horizon of the run.
    pub model_time: Time,
}

/// Rows of runs, one row for each mean of the service times.
#[derive(Clone, Debug, PartialEq, Eq)]
pub struct QueueTimeAndLoadFromServiceMean {
    /// How many runs are averaged at each point.
    pub iteration_per_point: usize,
    /// The scale of the gaps between arrivals.
    pub generator_sigma: Time,
    /// The spread of the service times.
    pub service_sigma: Time,
    /// The means of the service times, one for each point.
    pub service_mean_spread: Vec<Time>,
    /// The horizon of each run.
    pub model_time: Time,
}

/// Rows of runs, one row for each scale of the gaps between arrivals.
#[derive(Clone, Debug, PartialEq, Eq)]
pub struct QueueTimeAndLoadFromGeneratorSigma {
    /// How many runs are averaged at each point.
    pub iteration_per_point: usize,
    /// The scales of the gaps between arrivals, one for each point.
    pub generator_sigma_spread: Vec<Time>,
    /// The spread of the service times.
    pub service_sigma: Time,
    /// The mean of the service times.
    pub service_mean: Time,
    /// The horizon of each run.
    pub model_time: Time,
}

/// The factorial experiment over the ranges of the three factors.
#[derive(Clone, Copy, Debug, PartialEq, Eq, Structural)]
pub struct ActiveExperimentTable {
    /// The horizon of each run.
    pub model_time: Time,
    /// How many runs are averaged at each corner.
    pub iterations: usize,
    /// The intensity of the service at the low level.
    pub svc_intensity_begin: u64,
    /// The intensity of the service at the high level.
    pub svc_intensity_end: u64,
    /// The spread of the service times at the low level.
    pub svc_sigma_begin: u64,
    /// The spread of the service times at the high level.
    pub svc_sigma_end: u64,
    /// The intensity of the arrivals at the low level.
    pub gen_intensity_begin: u64,
    /// The intensity of the arrivals at the high level.
    pub gen_intensity_end: u64,
}

/// The comparison of a fitted model with runs at one point.
#[derive(Clone, Copy, Debug, PartialEq, Eq)]
pub struct ActiveExperimentSingle {
    /// The horizon of each run.
    pub model_time: Time,
    /// How many runs are averaged.
    pub iterations: usize,
    /// The intensity of the service at the point.
    pub svc_intensity_point: u64,
    /// The intensity of the service at the low level.
    pub svc_intensity_begin: u64,
    /// The intensity of the service at the high level.
    pub svc_intensity_end: u64,
    /// The spread of the service times at the point.
    pub svc_sigma_point: u64,
    /// The spread of the service times at the low level.
    pub svc_sigma_begin: u64,
    /// The spread of the service times at the high level.
    pub svc_sigma_end: u64,
    /// The intensity of the arrivals at the point.
    pub gen_intensity_point: u64,
    /// The intensity of the arrivals at the low level.
    pub gen_intensity_begin: u64,
    /// The intensity of the arrivals at the high level.
    pub gen_intensity_end: u64,
    /// The coefficients of the model, in eighths of a millionth.
    pub b: [i64; EXPERIMENT_COUNT],
}

impl ActiveExperimentTable {
    /// The ranges of the three factors: the intensity of the arrivals, the
    /// intensity of the service, and the spread of the service times.
    pub open spec fn ranges(self) -> Seq<ParamRange> {
        seq![
            (self.gen_intensity_begin, self.gen_intensity_end),
            (self.svc_intensity_begin, self.svc_intensity_end),
            (self.svc_sigma_begin, self.svc_sigma_end),
        ]
    }
}

impl ActiveExperimentSingle {
    /// The ranges of the three factors: the intensity of the arrivals, the
    /// intensity of the service, and the spread of the service times.
    pub open spec fn ranges(self) -> Seq<ParamRange> {
        seq![
            (self.gen_intensity_begin, self.gen_intensity_end),
            (self.svc_intensity_begin, self.svc_intensity_end),
            (self.svc_sigma_begin, self.svc_sigma_end),
        ]
    }
}

} // verus!
