use queue_model::model::generator::RayleighGenerator;
use queue_model::model::random::{drawn, RandomSource, Replay, SampleError};
use queue_model::model::service::NormalService;
use queue_model::model::ModelError;

#[test]
fn generator_starts_with_two_draws() {
    let mut rng = Replay::new(vec![3, 4, 9]);
    let generator = RayleighGenerator::new(2_000_000, &mut rng).unwrap();
    assert_eq!(generator.last_event(), 3);
    assert_eq!(generator.next_event(), 7);
    assert_eq!(generator.sigma(), 2_000_000);
    assert_eq!(rng.remaining(), 1);
}

#[test]
fn generator_moves_from_its_next_arrival() {
    let mut generator = RayleighGenerator::starting_at(5, 0, 7).unwrap();
    assert_eq!(generator.advance_by(None, 4), Ok(()));
    assert_eq!((generator.last_event(), generator.next_event()), (7, 11));
    let moved = generator.advanced(None, 1).unwrap();
    assert_eq!((moved.last_event(), moved.next_event()), (11, 12));
    assert_eq!((generator.last_event(), generator.next_event()), (7, 11));
}

#[test]
fn generator_moves_from_a_forced_time() {
    let mut generator = RayleighGenerator::starting_at(5, 0, 7).unwrap();
    assert_eq!(generator.advance_by(Some(100), 4), Ok(()));
    assert_eq!((generator.last_event(), generator.next_event()), (100, 104));
    assert_eq!(generator.advance(Some(2), &mut Replay::new(vec![6])), Ok(()));
    assert_eq!((generator.last_event(), generator.next_event()), (2, 8));
}

#[test]
fn generator_refuses_and_stays() {
    let mut generator = RayleighGenerator::starting_at(5, 0, 7).unwrap();
    assert_eq!(generator.advance_by(None, 0), Err(ModelError::NonTotalOrder));
    assert_eq!(generator.advance_by(None, u64::MAX), Err(ModelError::Overflow));
    assert_eq!(generator.advance_by(Some(u64::MAX), 1), Err(ModelError::Overflow));
    assert_eq!(generator.advance_by(Some(u64::MAX), 0), Err(ModelError::NonTotalOrder));
    assert_eq!(generator.advance(None, &mut Replay::new(vec![])), Err(ModelError::NonTotalOrder));
    assert_eq!((generator.last_event(), generator.next_event()), (0, 7));
    assert_eq!(generator.advance_by(None, u64::MAX - 7), Ok(()));
    assert_eq!(generator.next_event(), u64::MAX);
}

#[test]
fn generator_starts_anew() {
    let mut generator = RayleighGenerator::starting_at(5, 100, 7).unwrap();
    assert_eq!(generator.reset(&mut Replay::new(vec![1, 2])), Ok(()));
    assert_eq!((generator.last_event(), generator.next_event(), generator.sigma()), (1, 3, 5));
    assert_eq!(generator.reset_to(0, 9), Ok(()));
    assert_eq!((generator.last_event(), generator.next_event()), (0, 9));
    assert_eq!(generator.reset_to(4, 0), Err(ModelError::NonTotalOrder));
    assert_eq!(generator.reset(&mut Replay::new(vec![1])), Err(ModelError::NonTotalOrder));
    assert_eq!((generator.last_event(), generator.next_event()), (0, 9));
}

#[test]
fn intensity_gives_the_scale_of_the_gaps() {
    assert_eq!(RayleighGenerator::i2p(1_000_000), Some(797_884));
    assert_eq!(RayleighGenerator::i2p(2_000_000), Some(398_942));
    assert_eq!(RayleighGenerator::i2p(500_000), Some(1_595_769));
    assert_eq!(RayleighGenerator::i2p(797_884_560_802), Some(1));
    assert_eq!(RayleighGenerator::i2p(797_884_560_803), Some(0));
    assert_eq!(RayleighGenerator::i2p(0), None);
    let mut rng = Replay::new(vec![1, 1]);
    let generator = RayleighGenerator::from_intensity(1_000_000, &mut rng).unwrap();
    assert_eq!(generator.sigma(), 797_884);
    assert_eq!(
        RayleighGenerator::from_intensity(0, &mut rng).err(),
        Some(ModelError::InvalidDistributionParameters)
    );
    assert_eq!(
        RayleighGenerator::from_intensity(797_884_560_803, &mut rng).err(),
        Some(ModelError::InvalidDistributionParameters)
    );
}

#[test]
fn intensity_gives_the_mean_service_time() {
    assert_eq!(NormalService::i2p(1_000_000), Some(1_000_000));
    assert_eq!(NormalService::i2p(500_000), Some(2_000_000));
    assert_eq!(NormalService::i2p(3_000_000), Some(333_333));
    assert_eq!(NormalService::i2p(1_000_000_000_000), Some(1));
    assert_eq!(NormalService::i2p(1_000_000_000_001), Some(0));
    assert_eq!(NormalService::i2p(0), None);
    let server = NormalService::from_intensity(500_000, 250_000, &Replay::new(vec![])).unwrap();
    assert_eq!((server.mean(), server.sigma()), (2_000_000, 250_000));
    assert_eq!(
        NormalService::from_intensity(0, 1, &Replay::new(vec![])).err(),
        Some(ModelError::InvalidDistributionParameters)
    );
    assert_eq!(
        NormalService::from_intensity(1_000_000_000_001, 1, &Replay::new(vec![])).err(),
        Some(ModelError::InvalidDistributionParameters)
    );
    assert_eq!(
        NormalService::from_intensity(1, 0, &Replay::new(vec![])).err(),
        Some(ModelError::InvalidDistributionParameters)
    );
}

#[test]
fn server_counts_the_job_that_it_leaves() {
    let mut server = NormalService::new(2_000_000, 500_000, &Replay::new(vec![])).unwrap();
    assert_eq!(
        (server.last_event(), server.next_event(), server.was_busy_for()),
        (0, 0, 0)
    );
    assert_eq!(server.advance_by(Some(10), 5), Ok(()));
    assert_eq!(
        (server.last_event(), server.next_event(), server.was_busy_for()),
        (10, 15, 0)
    );
    assert_eq!(server.advance_by(None, 8), Ok(()));
    assert_eq!(
        (server.last_event(), server.next_event(), server.was_busy_for()),
        (15, 23, 5)
    );
    assert_eq!(server.advance_by(Some(30), 0), Ok(()));
    assert_eq!(
        (server.last_event(), server.next_event(), server.was_busy_for()),
        (30, 30, 13)
    );
    let moved = server.advanced(None, 2).unwrap();
    assert_eq!(
        (moved.last_event(), moved.next_event(), moved.was_busy_for()),
        (30, 32, 13)
    );
    assert_eq!(server.next_event(), 30);
}

#[test]
fn server_draws_its_service_time() {
    let mut server = NormalService::new(2_000_000, 500_000, &Replay::new(vec![])).unwrap();
    assert_eq!(server.advance(Some(10), &mut Replay::new(vec![6])), Ok(()));
    assert_eq!((server.last_event(), server.next_event()), (10, 16));
    assert_eq!(server.advance(None, &mut Replay::new(vec![])), Err(ModelError::NonTotalOrder));
    assert_eq!((server.last_event(), server.next_event()), (10, 16));
}

#[test]
fn server_refuses_and_stays() {
    let mut server = NormalService::new(1, 1, &Replay::new(vec![])).unwrap();
    assert_eq!(server.advance_by(Some(1), u64::MAX), Err(ModelError::Overflow));
    assert_eq!(server.advance_by(Some(0), u64::MAX), Ok(()));
    assert_eq!(server.advance_by(Some(0), u64::MAX), Ok(()));
    assert_eq!(server.was_busy_for(), u64::MAX);
    assert_eq!(server.advance_by(Some(0), 1), Err(ModelError::Overflow));
    assert_eq!(
        (server.last_event(), server.next_event(), server.was_busy_for()),
        (0, u64::MAX, u64::MAX)
    );
}

#[test]
fn server_goes_back_to_its_start() {
    let mut server = NormalService::new(7, 9, &Replay::new(vec![])).unwrap();
    server.advance_by(Some(10), 5).unwrap();
    server.advance_by(None, 5).unwrap();
    server.reset();
    assert_eq!(
        (server.last_event(), server.next_event(), server.was_busy_for()),
        (0, 0, 0)
    );
    assert_eq!((server.mean(), server.sigma()), (7, 9));
}

#[test]
fn replay_hands_out_what_was_recorded() {
    let mut rng = Replay::new(vec![4, 0, 9]);
    assert_eq!(rng.remaining(), 3);
    assert_eq!(rng.rayleigh(1), Ok(4));
    assert_eq!(rng.log_normal(1, 1), Ok(0));
    assert_eq!(rng.next(), Ok(9));
    assert_eq!(rng.next(), Err(SampleError::NotATime));
    assert_eq!(rng.rayleigh(1), Err(SampleError::NotATime));
    assert_eq!(rng.remaining(), 0);
    assert!(rng.has_log_normal(7, 9));
}

#[test]
fn failed_draws_become_errors_of_the_engine() {
    assert_eq!(drawn(Ok(5)), Ok(5));
    assert_eq!(
        drawn(Err(SampleError::InvalidParameters)),
        Err(ModelError::InvalidDistributionParameters)
    );
    assert_eq!(drawn(Err(SampleError::NotATime)), Err(ModelError::NonTotalOrder));
}
