//! What the serving layer calls: each request answered from plain values,
//! with the draws from a source that the caller hands in.

use vstd::prelude::*;
use crate::fixed::{abs_diff, distance, ONE};
use crate::model::generator::RayleighGenerator;
use crate::model::random::RandomSource;
use crate::model::service::NormalService;
use crate::model::state::{averaged, run_of, ModelView, LOAD_ONE};
use crate::model::{Averages, Model, ModelError, ModelParams, ModelResult, Time};
use crate::planned_experiment::design::{design_row, ints};
use crate::planned_experiment::scaling::{
    corner_accepted, measured, measured_at_corner, point_accepted,
};
use crate::planned_experiment::{
    PlannedExperimentMatrix, PlannedExperimentResult, PlannedExperimentResultSingle,
    PlannedExperimentSingle, EXPERIMENT_COUNT,
};

pub mod request;
pub mod response;

verus! {

/// The queue time for each request served to the end, rounded down; zero
/// where none was.
pub open spec fn queue_time_avg(res: ModelResult) -> int {
    if res.requests_handled == 0 {
        0
    } else {
        res.request_queue_time as int / res.requests_handled as int
    }
}

/// The answer that tells of a run: its counts, the requests that were not
/// served to the end, the queue time for each request that was, and the
/// load.
pub open spec fn summary_of(res: ModelResult) -> response::ModelResult {
    response::ModelResult {
        request_total: res.requests_total,
        requests_handled: res.requests_handled,
        requests_in_queue: (res.requests_total - res.requests_handled) as usize,
        queue_time_avg: queue_time_avg(res) as Time,
        load_avg: res.load_avg,
    }
}

/// The model is a station with one arrival process of scale
/// `generator_sigma` and one rested server with the mean `service_mean` and
/// the spread `service_sigma`.
pub open spec fn parameterized(
    m: ModelView,
    model_time: Time,
    generator_sigma: Time,
    service_mean: Time,
    service_sigma: Time,
) -> bool {
    &&& m.model_time == model_time
    &&& m.generators.len() == 1
    &&& m.services.len() == 1
    &&& m.rested()
    &&& m.generators[0].sigma == generator_sigma
    &&& m.services[0].mean == service_mean
    &&& m.services[0].sigma == service_sigma
}

/// `avg` is what `runs` runs of a station with these parameters gave on the
/// average.
pub open spec fn spread_measured(
    model_time: Time,
    generator_sigma: Time,
    service_mean: Time,
    service_sigma: Time,
    runs: nat,
    avg: Averages,
) -> bool {
    exists|m: ModelView|
        {
            &&& #[trigger] averaged(m, runs, avg)
            &&& parameterized(m, model_time, generator_sigma, service_mean, service_sigma)
        }
}

/// The answer that tells of a run: its counts, the requests that were not
/// served to the end, the queue time for each request that was, and the
/// load.
pub fn summary(res: ModelResult) -> (r: response::ModelResult)
    requires
        res.requests_handled <= res.requests_total,
    ensures
        r == summary_of(res),
        r.queue_time_avg <= res.request_queue_time,
{
    let avg = if res.requests_handled == 0 {
        0
    } else {
        res.request_queue_time / res.requests_handled as u64
    };
    response::ModelResult {
        request_total: res.requests_total,
        requests_handled: res.requests_handled,
        requests_in_queue: res.requests_total - res.requests_handled,
        queue_time_avg: avg,
        load_avg: res.load_avg,
    }
}

/// A station with one arrival process of scale `generator_sigma` and one
/// server with the mean `service_mean` and the spread `service_sigma`. A
/// parameter of zero is refused; the first two arrivals come from `rng`.
pub fn single_station<R: RandomSource>(
    model_time: Time,
    generator_sigma: Time,
    service_mean: Time,
    service_sigma: Time,
    rng: &mut R,
) -> (r: Result<Model, ModelError>)
    ensures
        generator_sigma == 0 || service_mean == 0 || service_sigma == 0 ==> r == Err::<
            Model,
            ModelError,
        >(ModelError::InvalidDistributionParameters),
        match r {
            Ok(model) => parameterized(
                model@,
                model_time,
                generator_sigma,
                service_mean,
                service_sigma,
            ),
            Err(e) => e != ModelError::EmptySystem,
        },
{
    let svc = NormalService::new(service_mean, service_sigma, rng)?;
    let gen = RayleighGenerator::new(generator_sigma, rng)?;
    let mut model = Model::new(ModelParams { model_time });
    model.add_generator(gen);
    model.add_service(svc);
    Ok(model)
}

/// One run of a station, told as an answer.
pub fn model_single<R: RandomSource>(params: &request::ModelParams, rng: &mut R) -> (r: Result<
    response::ModelResult,
    ModelError,
>)
    ensures
        params.generator_sigma == 0 || params.service_mean == 0 || params.service_sigma == 0 ==> r
            == Err::<response::ModelResult, ModelError>(ModelError::InvalidDistributionParameters),
        match r {
            Ok(answer) => {
                &&& exists|m: ModelView, res: ModelResult|
                    {
                        &&& #[trigger] run_of(m, res)
                        &&& parameterized(
                            m,
                            params.model_time,
                            params.generator_sigma,
                            params.service_mean,
                            params.service_sigma,
                        )
                        &&& res.requests_handled <= res.requests_total
                        &&& answer == summary_of(res)
                    }
                &&& answer.requests_handled <= answer.request_total
                &&& answer.requests_in_queue == answer.request_total - answer.requests_handled
                &&& answer.load_avg <= LOAD_ONE
                &&& params.model_time == 0 ==> answer == (response::ModelResult {
                    request_total: 0,
                    requests_handled: 0,
                    requests_in_queue: 0,
                    queue_time_avg: 0,
                    load_avg: 0,
                })
            },
            Err(e) => e != ModelError::EmptySystem,
        },
{
    let mut model = single_station(
        params.model_time,
        params.generator_sigma,
        params.service_mean,
        params.service_sigma,
        rng,
    )?;
    let ghost made = model@;
    let res = model.start(rng)?;
    proof {
        assert(run_of(made, res));
    }
    Ok(summary(res))
}

/// `r` is what the runs at one point of a spread give: no average over no
/// runs; no station for a parameter of zero; and where there are averages,
/// they are those of `runs` runs of a station with these parameters.
pub open spec fn point_gives(
    model_time: Time,
    generator_sigma: Time,
    service_mean: Time,
    service_sigma: Time,
    runs: usize,
    r: Result<Averages, ModelError>,
) -> bool {
    &&& runs == 0 <==> r == Err::<Averages, ModelError>(ModelError::EmptySystem)
    &&& runs > 0 && (generator_sigma == 0 || service_mean == 0 || service_sigma == 0) ==> r
        == Err::<Averages, ModelError>(ModelError::InvalidDistributionParameters)
    &&& r is Ok ==> r->Ok_0.load_avg <= LOAD_ONE && spread_measured(
        model_time,
        generator_sigma,
        service_mean,
        service_sigma,
        runs as nat,
        r->Ok_0,
    )
}

/// The averages over `iteration_per_point` runs of one station.
pub fn spread_point<R: RandomSource>(
    model_time: Time,
    generator_sigma: Time,
    service_mean: Time,
    service_sigma: Time,
    iteration_per_point: usize,
    rng: &mut R,
) -> (r: Result<Averages, ModelError>)
    ensures
        point_gives(
            model_time,
            generator_sigma,
            service_mean,
            service_sigma,
            iteration_per_point,
            r,
        ),
{
    if iteration_per_point == 0 {
        return Err(ModelError::EmptySystem);
    }
    let mut model = single_station(model_time, generator_sigma, service_mean, service_sigma, rng)?;
    model.replicate(iteration_per_point, rng)
}

/// What the runs at each scale of the gaps between arrivals gave, one point
/// after the other, in the order asked for. A point that fails is told as
/// its failure and leaves the other points alone.
pub fn model_spread_from_generator<R: RandomSource>(
    params: &request::QueueTimeAndLoadFromGeneratorSigma,
    rng: &mut R,
) -> (r: response::QueueTimeAndLoadFromGeneratorSigma)
    ensures
        r.points@.len() == params.generator_sigma_spread@.len(),
        forall|i: int|
            0 <= i < r.points@.len() ==> point_gives(
                params.model_time,
                params.generator_sigma_spread@[i],
                params.service_mean,
                params.service_sigma,
                params.iteration_per_point,
                #[trigger] r.points@[i],
            ),
{
    let mut points: Vec<Result<Averages, ModelError>> = Vec::new();
    let mut i: usize = 0;
    while i < params.generator_sigma_spread.len()
        invariant
            i <= params.generator_sigma_spread@.len(),
            points@.len() == i,
            forall|k: int|
                0 <= k < i ==> point_gives(
                    params.model_time,
                    params.generator_sigma_spread@[k],
                    params.service_mean,
                    params.service_sigma,
                    params.iteration_per_point,
                    #[trigger] points@[k],
                ),
        decreases params.generator_sigma_spread@.len() - i,
    {
        let point = spread_point(
            params.model_time,
            params.generator_sigma_spread[i],
            params.service_mean,
            params.service_sigma,
            params.iteration_per_point,
            rng,
        );
        points.push(point);
        i += 1;
    }
    response::QueueTimeAndLoadFromGeneratorSigma { points }
}

/// What the runs at each mean of the service times gave, one point after
/// the other, in the order asked for. A point that fails is told as its
/// failure and leaves the other points alone.
pub fn model_spread_from_service<R: RandomSource>(
    params: &request::QueueTimeAndLoadFromServiceMean,
    rng: &mut R,
) -> (r: response::QueueTimeAndLoadFromServiceMean)
    ensures
        r.points@.len() == params.service_mean_spread@.len(),
        forall|i: int|
            0 <= i < r.points@.len() ==> point_gives(
                params.model_time,
                params.generator_sigma,
                params.service_mean_spread@[i],
                params.service_sigma,
                params.iteration_per_point,
                #[trigger] r.points@[i],
            ),
{
    let mut points: Vec<Result<Averages, ModelError>> = Vec::new();
    let mut i: usize = 0;
    while i < params.service_mean_spread.len()
        invariant
            i <= params.service_mean_spread@.len(),
            points@.len() == i,
            forall|k: int|
                0 <= k < i ==> point_gives(
                    params.model_time,
                    params.generator_sigma,
                    params.service_mean_spread@[k],
                    params.service_sigma,
                    params.iteration_per_point,
                    #[trigger] points@[k],
                ),
        decreases params.service_mean_spread@.len() - i,
    {
        let point = spread_point(
            params.model_time,
            params.generator_sigma,
            params.service_mean_spread[i],
            params.service_sigma,
            params.iteration_per_point,
            rng,
        );
        points.push(point);
        i += 1;
    }
    response::QueueTimeAndLoadFromServiceMean { points }
}

/// The record is row `xrow` with the response `y` and the two predictions.
pub open spec fn records(
    record: response::ActiveExperimentTableRecord,
    xrow: Seq<i64>,
    y: i64,
    y_linear: i64,
    y_non_linear: i64,
) -> bool {
    &&& record.x0 == xrow[0]
    &&& record.x1 == xrow[1]
    &&& record.x2 == xrow[2]
    &&& record.x3 == xrow[3]
    &&& record.x12 == xrow[4]
    &&& record.x13 == xrow[5]
    &&& record.x23 == xrow[6]
    &&& record.x123 == xrow[7]
    &&& record.y == y
    &&& record.yl == y_linear
    &&& record.yn == y_non_linear
    &&& record.yld == distance(y as int, y_linear as int)
    &&& record.ynd == distance(y as int, y_non_linear as int)
}

/// The record for a row with what was measured and predicted at it.
pub fn record(xrow: &PlannedExperimentSingle, y: i64, y_linear: i64, y_non_linear: i64) -> (r:
    response::ActiveExperimentTableRecord)
    ensures
        records(r, xrow@, y, y_linear, y_non_linear),
{
    response::ActiveExperimentTableRecord {
        x0: xrow[0],
        x1: xrow[1],
        x2: xrow[2],
        x3: xrow[3],
        x12: xrow[4],
        x13: xrow[5],
        x23: xrow[6],
        x123: xrow[7],
        y,
        yl: y_linear,
        yn: y_non_linear,
        yld: abs_diff(y, y_linear),
        ynd: abs_diff(y, y_non_linear),
    }
}

/// The table of a fitted model: a record for each row of the design.
pub fn table(
    experiments: &[PlannedExperimentSingle; EXPERIMENT_COUNT],
    result: &PlannedExperimentResult,
) -> (t: response::ActiveExperimentTable)
    ensures
        t.b == result.b,
        forall|i: int|
            0 <= i < EXPERIMENT_COUNT ==> records(
                #[trigger] t.matrix[i],
                experiments[i]@,
                result.y[i],
                result.y_linear[i],
                result.y_non_linear[i],
            ),
{
    let first = record(&experiments[0], result.y[0], result.y_linear[0], result.y_non_linear[0]);
    let mut matrix = [first; EXPERIMENT_COUNT];
    let mut i: usize = 1;
    while i < EXPERIMENT_COUNT
        invariant
            1 <= i <= EXPERIMENT_COUNT,
            forall|k: int|
                0 <= k < i ==> records(
                    #[trigger] matrix[k],
                    experiments[k]@,
                    result.y[k],
                    result.y_linear[k],
                    result.y_non_linear[k],
                ),
        decreases EXPERIMENT_COUNT - i,
    {
        matrix[i] =
        record(&experiments[i], result.y[i], result.y_linear[i], result.y_non_linear[i]);
        i += 1;
    }
    response::ActiveExperimentTable { b: result.b, matrix }
}

/// The factorial experiment, told as a table.
pub fn active_experiment<R: RandomSource>(params: &request::ActiveExperimentTable, rng: &mut R)
    -> (r: Result<response::ActiveExperimentTable, ModelError>)
    ensures
        params.iterations == 0 <==> r == Err::<response::ActiveExperimentTable, ModelError>(
            ModelError::EmptySystem,
        ),
        params.iterations > 0 && !corner_accepted(params.ranges(), 0)
            ==> r == Err::<response::ActiveExperimentTable, ModelError>(
            ModelError::InvalidDistributionParameters,
        ),
        r is Ok ==> exists|result: PlannedExperimentResult|
            {
                &&& #[trigger] result.fitted()
                &&& r->Ok_0.b == result.b
                &&& forall|i: int|
                    0 <= i < EXPERIMENT_COUNT ==> {
                        &&& 0 <= result.y[i] <= ONE
                        &&& measured_at_corner(
                            params.model_time,
                            params.ranges(),
                            i,
                            params.iterations as nat,
                            result.y[i] as int,
                        )
                        &&& ints((#[trigger] r->Ok_0.matrix[i]).row())
                            == design_row(i)
                        &&& r->Ok_0.matrix[i].y == result.y[i]
                        &&& r->Ok_0.matrix[i].yl == result.y_linear[i]
                        &&& r->Ok_0.matrix[i].yn == result.y_non_linear[i]
                        &&& r->Ok_0.matrix[i].yld == distance(
                            result.y[i] as int,
                            result.y_linear[i] as int,
                        )
                        &&& r->Ok_0.matrix[i].ynd == distance(
                            result.y[i] as int,
                            result.y_non_linear[i] as int,
                        )
                    }
            },
{
    let active_experiment = PlannedExperimentMatrix::new(
        ModelParams { model_time: params.model_time },
    );
    let param_ranges = [
        (params.gen_intensity_begin, params.gen_intensity_end),
        (params.svc_intensity_begin, params.svc_intensity_end),
        (params.svc_sigma_begin, params.svc_sigma_end),
    ];
    let result = active_experiment.run(params.iterations, param_ranges, rng)?;
    let experiments = active_experiment.take_experiments();
    let t = table(&experiments, &result);
    Ok(t)
}

/// The comparison of a fitted model with runs at one point, told as a
/// record.
pub fn active_experiment_single<R: RandomSource>(
    params: &request::ActiveExperimentSingle,
    rng: &mut R,
) -> (r: Result<response::ActiveExperimentTableRecord, ModelError>)
    ensures
        params.iterations == 0 <==> r == Err::<response::ActiveExperimentTableRecord, ModelError>(
            ModelError::EmptySystem,
        ),
        params.iterations > 0 && !point_accepted(
            params.gen_intensity_point,
            params.svc_intensity_point,
            params.svc_sigma_point,
        ) ==> r == Err::<response::ActiveExperimentTableRecord, ModelError>(
            ModelError::InvalidDistributionParameters,
        ),
        r is Ok ==> exists|single: PlannedExperimentResultSingle|
            {
                &&& #[trigger] single.compares(
                    params.gen_intensity_point,
                    params.svc_intensity_point,
                    params.svc_sigma_point,
                    params.ranges(),
                    ints(params.b@),
                )
                &&& 0 <= single.y <= ONE
                &&& measured(
                    params.model_time,
                    params.gen_intensity_point,
                    params.svc_intensity_point,
                    params.svc_sigma_point,
                    params.iterations as nat,
                    single.y as int,
                )
                &&& records(r->Ok_0, single.xrow@, single.y, single.y_linear, single.y_non_linear)
            },
{
    let active_experiment = PlannedExperimentMatrix::new(
        ModelParams { model_time: params.model_time },
    );
    let param_ranges = [
        (params.gen_intensity_begin, params.gen_intensity_end),
        (params.svc_intensity_begin, params.svc_intensity_end),
        (params.svc_sigma_begin, params.svc_sigma_end),
    ];
    let result = active_experiment.run_single(
        params.iterations,
        params.gen_intensity_point,
        params.svc_intensity_point,
        params.svc_sigma_point,
        param_ranges,
        params.b,
        rng,
    )?;
    proof {
        assert(param_ranges@ =~= params.ranges());
    }
    Ok(record(&result.xrow, result.y, result.y_linear, result.y_non_linear))
}

} // verus!
