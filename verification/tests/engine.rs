use queue_model::model::generator::RayleighGenerator;
use queue_model::model::random::{RandomSource, Replay, SampleError};
use queue_model::model::schedule::{Entry, Schedule};
use queue_model::model::service::NormalService;
use queue_model::model::state::Demand;
use queue_model::model::unit::Unit;
use queue_model::model::{Averages, Model, ModelError, ModelParams, ModelResult, Tally};

/// Hands out the same gap and the same service time for ever.
struct Constant {
    gap: u64,
    service: u64,
}

impl RandomSource for Constant {
    fn rayleigh(&mut self, _sigma: u64) -> Result<u64, SampleError> {
        Ok(self.gap)
    }

    fn log_normal(&mut self, _mean: u64, _sigma: u64) -> Result<u64, SampleError> {
        Ok(self.service)
    }

    fn has_log_normal(&self, _mean: u64, _sigma: u64) -> bool {
        true
    }
}

/// Knows no distribution.
struct Refusing;

impl RandomSource for Refusing {
    fn rayleigh(&mut self, _sigma: u64) -> Result<u64, SampleError> {
        Err(SampleError::InvalidParameters)
    }

    fn log_normal(&mut self, _mean: u64, _sigma: u64) -> Result<u64, SampleError> {
        Err(SampleError::InvalidParameters)
    }

    fn has_log_normal(&self, _mean: u64, _sigma: u64) -> bool {
        false
    }
}

fn station<R: RandomSource>(model_time: u64, servers: usize, rng: &mut R) -> Model {
    let mut model = Model::new(ModelParams { model_time });
    model.add_generator(RayleighGenerator::new(1_000_000, rng).unwrap());
    for _ in 0..servers {
        model.add_service(NormalService::new(2_000_000, 500_000, &*rng).unwrap());
    }
    model
}

#[test]
fn run_follows_the_recorded_durations() {
    let mut rng = Replay::new(vec![10, 5, 7, 10, 20, 3, 4, 10, 20, 2, 10]);
    let mut model = station(50, 1, &mut rng);
    let result = model.start(&mut rng);
    assert_eq!(
        result,
        Ok(ModelResult {
            requests_total: 5,
            requests_handled: 3,
            request_queue_time: 32,
            load_avg: 580_000,
        })
    );
    assert_eq!(rng.remaining(), 0);
    assert_eq!(model.waiting_requests(), 1);
    assert_eq!(model.idle_servers(), 0);
    assert_eq!(model.scheduled(), 2);
    assert_eq!(model.due(), None);
}

#[test]
fn run_stops_at_the_horizon() {
    let mut rng = Replay::new(vec![10, 5, 7, 10, 20, 3, 4, 10]);
    let mut model = station(40, 1, &mut rng);
    let result = model.start(&mut rng);
    assert_eq!(
        result,
        Ok(ModelResult {
            requests_total: 4,
            requests_handled: 1,
            request_queue_time: 0,
            load_avg: 175_000,
        })
    );
    assert_eq!(model.generator(0).unwrap().next_event(), 42);
    assert_eq!(model.service(0).unwrap().next_event(), 45);
    assert_eq!(model.service(0).unwrap().was_busy_for(), 7);
}

#[test]
fn run_without_units_is_refused() {
    let mut rng = Replay::new(vec![1, 1]);
    let mut model = Model::new(ModelParams { model_time: 10 });
    assert_eq!(model.start(&mut rng), Err(ModelError::EmptySystem));
    assert_eq!(model.begin(), Err(ModelError::EmptySystem));
    assert_eq!(model.result(), Err(ModelError::EmptySystem));
    model.add_service(NormalService::new(1, 1, &rng).unwrap());
    assert_eq!(model.start(&mut rng), Err(ModelError::EmptySystem));
    let mut other = Model::new(ModelParams { model_time: 10 });
    other.add_generator(RayleighGenerator::new(1, &mut rng).unwrap());
    assert_eq!(other.start(&mut rng), Err(ModelError::EmptySystem));
    assert_eq!(other.replicate(3, &mut rng), Err(ModelError::EmptySystem));
}

#[test]
fn zero_horizon_gives_zeros() {
    let mut rng = Replay::new(vec![10, 5]);
    let mut model = station(0, 1, &mut rng);
    assert_eq!(
        model.start(&mut rng),
        Ok(ModelResult {
            requests_total: 0,
            requests_handled: 0,
            request_queue_time: 0,
            load_avg: 0,
        })
    );
    assert_eq!(model.idle_servers(), 1);
    assert_eq!(model.scheduled(), 1);
}

#[test]
fn every_server_stays_accounted_for() {
    let mut rng = Constant { gap: 10, service: 35 };
    let mut model = station(200, 3, &mut rng);
    model.begin().unwrap();
    let mut steps = 0;
    while model.step_with(35, 10).unwrap() {
        steps += 1;
        let busy = model.scheduled() - 1;
        assert_eq!(model.idle_servers() + busy, 3);
        assert!(model.idle_servers() == 0 || model.waiting_requests() == 0);
        let counters = model.result().unwrap();
        assert!(counters.requests_handled <= counters.requests_total);
        assert_eq!(
            counters.requests_total - counters.requests_handled,
            busy + model.waiting_requests()
        );
    }
    assert!(steps > 20);
    assert_eq!(model.due(), None);
}

#[test]
fn one_step_at_a_time() {
    let mut rng = Replay::new(vec![10, 5]);
    let mut model = station(100, 1, &mut rng);
    model.begin().unwrap();
    assert_eq!(model.due(), Some(Entry { time: 15, unit: Unit::Gen(0) }));
    assert_eq!(model.step_with(7, 4), Ok(true));
    assert_eq!(model.due(), Some(Entry { time: 19, unit: Unit::Gen(0) }));
    assert_eq!(model.idle_servers(), 0);
    assert_eq!(model.step_with(99, 50), Ok(true));
    assert_eq!(model.waiting_requests(), 1);
    assert_eq!(model.due(), Some(Entry { time: 22, unit: Unit::Svc(0) }));
    assert_eq!(model.step_with(200, 0), Ok(true));
    assert_eq!(model.waiting_requests(), 0);
    assert_eq!(model.due(), Some(Entry { time: 69, unit: Unit::Gen(0) }));
    assert_eq!(
        model.result(),
        Ok(ModelResult {
            requests_total: 2,
            requests_handled: 1,
            request_queue_time: 3,
            load_avg: 70_000,
        })
    );
    assert_eq!(model.step_with(0, 40), Ok(true));
    assert_eq!(model.due(), None);
    assert_eq!(model.step_with(1, 1), Ok(false));
    assert_eq!(model.waiting_requests(), 1);
}

#[test]
fn step_with_draws_from_the_source() {
    let mut rng = Replay::new(vec![10, 5, 7, 4]);
    let mut model = station(100, 1, &mut rng);
    model.begin().unwrap();
    assert_eq!(model.step(&mut rng), Ok(true));
    assert_eq!(rng.remaining(), 0);
    assert_eq!(model.service(0).unwrap().next_event(), 22);
    assert_eq!(model.generator(0).unwrap().next_event(), 19);
    assert_eq!(model.step(&mut rng), Err(ModelError::NonTotalOrder));
    assert_eq!(model.generator(0).unwrap().next_event(), 19);
    assert_eq!(model.scheduled(), 2);
}

#[test]
fn arrival_that_does_not_move_is_refused() {
    let mut rng = Replay::new(vec![10, 5]);
    let mut model = station(100, 1, &mut rng);
    model.begin().unwrap();
    assert_eq!(model.step_with(7, 0), Err(ModelError::NonTotalOrder));
    assert_eq!(model.due(), Some(Entry { time: 15, unit: Unit::Gen(0) }));
    assert_eq!(model.idle_servers(), 1);
    assert_eq!(RayleighGenerator::new(1, &mut Replay::new(vec![5, 0])).err(), Some(ModelError::NonTotalOrder));
}

#[test]
fn time_beyond_the_clock_is_refused() {
    let mut rng = Replay::new(vec![10, 5]);
    let mut model = station(100, 1, &mut rng);
    model.begin().unwrap();
    assert_eq!(model.step_with(7, u64::MAX), Err(ModelError::Overflow));
    assert_eq!(model.step_with(u64::MAX, 1), Err(ModelError::Overflow));
    assert_eq!(model.due(), Some(Entry { time: 15, unit: Unit::Gen(0) }));
    assert_eq!(
        RayleighGenerator::starting_at(1, u64::MAX, 1).err(),
        Some(ModelError::Overflow)
    );
}

#[test]
fn source_without_draws_is_refused() {
    let mut rng = Replay::new(vec![5]);
    assert_eq!(RayleighGenerator::new(1, &mut rng).err(), Some(ModelError::NonTotalOrder));
    let mut rng = Replay::new(vec![10, 5]);
    let mut model = station(100, 1, &mut rng);
    assert_eq!(model.start(&mut rng), Err(ModelError::NonTotalOrder));
}

#[test]
fn zero_parameters_are_refused() {
    let mut rng = Constant { gap: 1, service: 1 };
    assert_eq!(
        RayleighGenerator::new(0, &mut rng).err(),
        Some(ModelError::InvalidDistributionParameters)
    );
    assert_eq!(
        RayleighGenerator::starting_at(0, 1, 1).err(),
        Some(ModelError::InvalidDistributionParameters)
    );
    let refused = Some(ModelError::InvalidDistributionParameters);
    assert_eq!(NormalService::new(0, 1, &rng).err(), refused);
    assert_eq!(NormalService::new(1, 0, &rng).err(), refused);
    assert!(NormalService::new(1, 1, &rng).is_ok());
    assert_eq!(NormalService::with_distribution(0, 1, true).err(), refused);
    assert_eq!(NormalService::with_distribution(1, 0, true).err(), refused);
    assert!(NormalService::with_distribution(1, 1, true).is_ok());
}

#[test]
fn source_that_knows_no_distribution_is_refused() {
    let mut rng = Constant { gap: 10, service: 5 };
    let mut model = station(100, 1, &mut rng);
    assert_eq!(model.start(&mut Refusing), Err(ModelError::InvalidDistributionParameters));
    assert_eq!(
        RayleighGenerator::new(1, &mut Refusing).err(),
        Some(ModelError::InvalidDistributionParameters)
    );
}

#[test]
fn equal_times_leave_in_order_of_entry() {
    let mut queue = Schedule::new();
    queue.push(Entry { time: 7, unit: Unit::Gen(0) });
    queue.push(Entry { time: 3, unit: Unit::Svc(4) });
    queue.push(Entry { time: 7, unit: Unit::Svc(1) });
    queue.push(Entry { time: 3, unit: Unit::Gen(2) });
    queue.push(Entry { time: 5, unit: Unit::Gen(9) });
    assert_eq!(queue.len(), 5);
    assert_eq!(queue.peek(), Some(Entry { time: 3, unit: Unit::Svc(4) }));
    assert_eq!(queue.pop(), Some(Entry { time: 3, unit: Unit::Svc(4) }));
    assert_eq!(queue.pop(), Some(Entry { time: 3, unit: Unit::Gen(2) }));
    assert_eq!(queue.pop(), Some(Entry { time: 5, unit: Unit::Gen(9) }));
    assert_eq!(queue.pop(), Some(Entry { time: 7, unit: Unit::Gen(0) }));
    assert_eq!(queue.pop(), Some(Entry { time: 7, unit: Unit::Svc(1) }));
    assert_eq!(queue.pop(), None);
    queue.push(Entry { time: 1, unit: Unit::Gen(0) });
    queue.clear();
    assert_eq!(queue.peek(), None);
}

#[test]
fn arrival_at_the_time_of_a_completion_goes_first_if_it_came_first() {
    let mut rng = Replay::new(vec![10, 5]);
    let mut model = station(100, 1, &mut rng);
    model.begin().unwrap();
    assert_eq!(model.step_with(4, 4), Ok(true));
    assert_eq!(model.due(), Some(Entry { time: 19, unit: Unit::Svc(0) }));
    assert_eq!(model.step_with(0, 0), Ok(true));
    assert_eq!(model.idle_servers(), 1);
    assert_eq!(model.due(), Some(Entry { time: 19, unit: Unit::Gen(0) }));
}

#[test]
fn replications_are_averaged() {
    let mut rng = Constant { gap: 10, service: 4 };
    let mut model = station(100, 1, &mut rng);
    assert_eq!(
        model.start(&mut rng),
        Ok(ModelResult {
            requests_total: 8,
            requests_handled: 8,
            request_queue_time: 0,
            load_avg: 280_000,
        })
    );
    model.reset(&mut rng).unwrap();
    assert_eq!(model.service(0).unwrap().was_busy_for(), 0);
    assert_eq!(model.generator(0).unwrap().next_event(), 20);
    assert_eq!(
        model.replicate(3, &mut rng),
        Ok(Averages { request_queue_time: 0, load_avg: 280_000 })
    );
    assert_eq!(model.replicate(0, &mut rng), Err(ModelError::EmptySystem));
}

#[test]
fn replications_round_the_averages_down() {
    let mut rng = Replay::new(vec![
        10, 5, 7, 10, 20, 3, 4, 10, 20, 2, 10, 1, 1, 10, 5, 7, 10, 20, 3, 4, 10, 1, 1,
    ]);
    let mut model = station(50, 1, &mut rng);
    let first = model.start(&mut rng).unwrap();
    assert_eq!((first.request_queue_time, first.load_avg), (32, 580_000));
    model.reset(&mut rng).unwrap();
    let mut rng = Replay::new(vec![
        10, 5, 7, 10, 20, 3, 4, 10, 20, 2, 10, 10, 5, 7, 50, 1, 1,
    ]);
    let mut model = station(50, 1, &mut rng);
    assert_eq!(
        model.replicate(2, &mut rng),
        Ok(Averages { request_queue_time: 16, load_avg: 290_000 })
    );
}

#[test]
fn second_run_without_reset_starts_from_where_the_units_are() {
    let mut rng = Constant { gap: 10, service: 4 };
    let mut model = station(100, 1, &mut rng);
    model.start(&mut rng).unwrap();
    assert_eq!(
        model.start(&mut rng),
        Ok(ModelResult {
            requests_total: 0,
            requests_handled: 0,
            request_queue_time: 0,
            load_avg: 280_000,
        })
    );
}

#[test]
fn handles_name_the_units_of_a_model() {
    let mut rng = Replay::new(vec![10, 5, 8, 3]);
    let mut model = station(100, 1, &mut rng);
    assert_eq!(Unit::Gen(0).next_event(&model), Some(15));
    assert_eq!(Unit::Gen(0).last_event(&model), Some(10));
    assert_eq!(Unit::Svc(0).next_event(&model), Some(0));
    assert_eq!(Unit::Svc(0).last_event(&model), Some(0));
    assert_eq!(Unit::Gen(1).next_event(&model), None);
    assert_eq!(Unit::Svc(1).last_event(&model), None);
    assert_eq!(Unit::Gen(0).advance(&mut model, None, &mut rng), Ok(()));
    assert_eq!(Unit::Gen(0).last_event(&model), Some(15));
    assert_eq!(Unit::Gen(0).next_event(&model), Some(23));
    assert_eq!(Unit::Svc(0).advance(&mut model, Some(40), &mut rng), Ok(()));
    assert_eq!(Unit::Svc(0).last_event(&model), Some(40));
    assert_eq!(Unit::Svc(0).next_event(&model), Some(43));
    assert_eq!(
        Unit::Svc(7).advance(&mut model, None, &mut rng),
        Err(ModelError::EmptySystem)
    );
    assert_eq!(
        Unit::Gen(0).advance(&mut model, None, &mut rng),
        Err(ModelError::NonTotalOrder)
    );
    assert_eq!(Unit::Gen(0).next_event(&model), Some(23));
}

#[test]
fn load_of_many_servers_counts_all_of_them() {
    let mut rng = Constant { gap: 10, service: 35 };
    let mut model = station(200, 3, &mut rng);
    let result = model.start(&mut rng).unwrap();
    assert!(result.load_avg <= 1_000_000);
    let busy: u64 = (0..3).map(|i| model.service(i).unwrap().was_busy_for()).sum();
    assert_eq!(result.load_avg, busy * 1_000_000 / (3 * 200));
    assert!(busy > 0);
}

#[test]
fn next_event_says_what_it_needs_drawn() {
    let mut rng = Replay::new(vec![10, 5]);
    let mut model = station(60, 1, &mut rng);
    model.begin().unwrap();
    assert_eq!(
        model.demand(),
        Demand::Arrival { sigma: 1_000_000, service: Some((2_000_000, 500_000)) }
    );
    model.step_with(7, 4).unwrap();
    assert_eq!(model.demand(), Demand::Arrival { sigma: 1_000_000, service: None });
    model.step_with(0, 50).unwrap();
    assert_eq!(model.demand(), Demand::Completion { service: Some((2_000_000, 500_000)) });
    model.step_with(3, 0).unwrap();
    assert_eq!(model.demand(), Demand::Completion { service: None });
    model.step_with(0, 0).unwrap();
    assert_eq!(model.demand(), Demand::Nothing);
}

/// Remembers what it was asked for.
struct Asked {
    log: Vec<(u64, u64)>,
}

impl RandomSource for Asked {
    fn rayleigh(&mut self, sigma: u64) -> Result<u64, SampleError> {
        self.log.push((sigma, 0));
        Ok(30)
    }

    fn log_normal(&mut self, mean: u64, sigma: u64) -> Result<u64, SampleError> {
        self.log.push((mean, sigma));
        Ok(40)
    }

    fn has_log_normal(&self, _mean: u64, _sigma: u64) -> bool {
        true
    }
}

#[test]
fn source_is_asked_with_the_parameters_of_the_unit_that_moves() {
    let mut rng = Asked { log: vec![] };
    let mut model = Model::new(ModelParams { model_time: 100 });
    model.add_generator(RayleighGenerator::new(11, &mut rng).unwrap());
    model.add_service(NormalService::new(21, 22, &rng).unwrap());
    model.add_service(NormalService::new(31, 32, &rng).unwrap());
    assert_eq!(rng.log, vec![(11, 0), (11, 0)]);
    rng.log.clear();
    let result = model.start(&mut rng).unwrap();
    assert_eq!(
        rng.log,
        vec![(21, 22), (11, 0), (31, 32), (11, 0)]
    );
    assert_eq!(result.requests_total, 2);
    assert_eq!(result.requests_handled, 0);
    rng.log.clear();
    model.reset(&mut rng).unwrap();
    assert_eq!(rng.log, vec![(11, 0), (11, 0)]);
}

#[test]
fn tally_averages_what_was_added() {
    let mut tally = Tally::new();
    assert_eq!(tally.runs(), 0);
    assert_eq!(tally.averages(), Err(ModelError::EmptySystem));
    for (request_queue_time, load_avg) in [(10, 500_000), (15, 0), (0, 100_001)] {
        let res = ModelResult {
            requests_total: 9,
            requests_handled: 4,
            request_queue_time,
            load_avg,
        };
        assert_eq!(tally.add(res), Ok(()));
    }
    assert_eq!(tally.runs(), 3);
    assert_eq!(
        tally.averages(),
        Ok(Averages { request_queue_time: 8, load_avg: 200_000 })
    );
    let big = ModelResult {
        requests_total: 0,
        requests_handled: 0,
        request_queue_time: u64::MAX,
        load_avg: u64::MAX,
    };
    let mut tally = Tally::new();
    tally.add(big).unwrap();
    tally.add(big).unwrap();
    assert_eq!(
        tally.averages(),
        Ok(Averages { request_queue_time: u64::MAX, load_avg: u64::MAX })
    );
}

#[test]
fn server_without_a_distribution_is_refused() {
    let refused = Some(ModelError::InvalidDistributionParameters);
    assert_eq!(NormalService::new(400_000_000, 500_000, &Refusing).err(), refused);
    assert_eq!(NormalService::new(1, 1, &Refusing).err(), refused);
    assert_eq!(NormalService::from_intensity(500_000, 250_000, &Refusing).err(), refused);
    assert_eq!(NormalService::with_distribution(400_000_000, 500_000, false).err(), refused);
    let server = NormalService::with_distribution(400_000_000, 500_000, true).unwrap();
    assert_eq!((server.mean(), server.sigma()), (400_000_000, 500_000));
    assert_eq!((server.last_event(), server.next_event(), server.was_busy_for()), (0, 0, 0));
}

#[test]
fn run_with_no_event_before_the_horizon_draws_nothing() {
    let mut rng = Replay::new(vec![10, 5]);
    let mut model = station(15, 2, &mut rng);
    assert_eq!(rng.remaining(), 0);
    assert_eq!(
        model.start(&mut rng),
        Ok(ModelResult {
            requests_total: 0,
            requests_handled: 0,
            request_queue_time: 0,
            load_avg: 0,
        })
    );
    assert_eq!(model.idle_servers(), 2);
    assert_eq!(model.scheduled(), 1);
    assert_eq!(model.generator(0).unwrap().next_event(), 15);
}

#[test]
fn refused_run_leaves_the_model_alone() {
    let mut rng = Replay::new(vec![10, 5]);
    let mut empty = Model::new(ModelParams { model_time: 100 });
    empty.add_service(NormalService::new(3, 4, &rng).unwrap());
    assert_eq!(empty.start(&mut rng), Err(ModelError::EmptySystem));
    assert_eq!(empty.scheduled(), 0);
    assert_eq!(empty.idle_servers(), 0);
    assert_eq!(empty.service(0).unwrap().next_event(), 0);
    assert_eq!(empty.reset(&mut rng), Ok(()));
    assert_eq!(rng.remaining(), 2);
}

#[test]
fn completion_with_nobody_waiting_draws_nothing() {
    let mut rng = Replay::new(vec![10, 5, 7, 40]);
    let mut model = station(100, 1, &mut rng);
    model.begin().unwrap();
    assert_eq!(model.step(&mut rng), Ok(true));
    assert_eq!(rng.remaining(), 0);
    assert_eq!(model.step(&mut rng), Ok(true));
    assert_eq!(model.idle_servers(), 1);
    assert_eq!(model.result().unwrap().requests_handled, 1);
}
