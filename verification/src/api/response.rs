//! What the library answers to the serving layer. Times are in ticks;
//! loads and levels are in millionths, coefficients in eighths of a
//! millionth.

use vstd::prelude::*;
use crate::model::{Averages, ModelError, Time};
use crate::planned_experiment::EXPERIMENT_COUNT;

verus! {

/// What one run gave.
#[derive(Clone, Copy, Debug, PartialEq, Eq, Structural)]
pub struct ModelResult {
    /// How many requests arrived.
    pub request_total: usize,
    /// How many requests were served to the end.
    pub requests_handled: usize,
    /// How many requests were still waiting or in service at the horizon.
    pub requests_in_queue: usize,
    /// The queue time added up over the run, for each request served to the
    /// end; zero where none was.
    pub queue_time_avg: Time,
    /// The load of the servers.
    pub load_avg: u64,
}

/// What the runs at each point gave, in the order of the points asked for:
/// the averages, or why there are none.
#[derive(Clone, Debug, PartialEq, Eq)]
pub struct QueueTimeAndLoadFromServiceMean {
    /// The outcome at each point.
    pub points: Vec<Result<Averages, ModelError>>,
}

/// What the runs at each point gave, in the order of the points asked for:
/// the averages, or why there are none.
#[derive(Clone, Debug, PartialEq, Eq)]
pub struct QueueTimeAndLoadFromGeneratorSigma {
    /// The outcome at each point.
    pub points: Vec<Result<Averages, ModelError>>,
}

/// A row of the design with what was measured and predicted at it.
#[derive(Clone, Copy, Debug, PartialEq, Eq, Structural)]
pub struct ActiveExperimentTableRecord {
    /// The constant.
    pub x0: i64,
    /// The coded level of the intensity of the arrivals.
    pub x1: i64,
    /// The coded level of the intensity of the service.
    pub x2: i64,
    /// The coded level of the spread of the service times.
    pub x3: i64,
    /// The product of the first and the second level.
    pub x12: i64,
    /// The product of the first and the third level.
    pub x13: i64,
    /// The product of the second and the third level.
    pub x23: i64,
    /// The product of all three levels.
    pub x123: i64,
    /// The response.
    pub y: i64,
    /// The prediction from the constant and the three levels.
    pub yl: i64,
    /// The prediction from all terms.
    pub yn: i64,
    /// How far the linear prediction lies from the response.
    pub yld: u64,
    /// How far the prediction from all terms lies from the response.
    pub ynd: u64,
}

impl ActiveExperimentTableRecord {
    /// The row of the record.
    pub open spec fn row(self) -> Seq<i64> {
        seq![self.x0, self.x1, self.x2, self.x3, self.x12, self.x13, self.x23, self.x123]
    }
}

/// The fitted model and the table of its design.
#[derive(Clone, Copy, Debug, PartialEq, Eq)]
pub struct ActiveExperimentTable {
    /// The coefficients, in eighths of a millionth.
    pub b: [i64; EXPERIMENT_COUNT],
    /// The rows of the design with what was measured and predicted at each.
    pub matrix: [ActiveExperimentTableRecord; EXPERIMENT_COUNT],
}

} // verus!
