use queue_model::fixed::{abs_diff, times, ONE};
use queue_model::model::random::{RandomSource, Replay, SampleError};
use queue_model::model::{ModelError, ModelParams};
use queue_model::planned_experiment::{
    bool_to_val, row_of, station, x12, x123, x13, x23, PlannedExperimentMatrix,
    PlannedExperimentResult, PlannedExperimentResultSingle, COEFFICIENT_ONE, EXPERIMENT_COUNT,
    PARAMS_COUNT, XMAX, XMIN,
};

/// Hands out the same gap and the same service time for ever.
struct Constant {
    gap: u64,
    service: u64,
}

impl RandomSource for Constant {
    fn rayleigh(&mut self, _sigma: u64) -> Result<u64, SampleError> {
        Ok(self.gap)
    }

    fn log_normal(&mut self, _mean: u64, _sigma: u64) -> Result<u64, SampleError> {
        Ok(self.service)
    }

    fn has_log_normal(&self, _mean: u64, _sigma: u64) -> bool {
        true
    }
}

const SIGNS: [[i64; 8]; 8] = [
    [1, -1, -1, -1, 1, 1, 1, -1],
    [1, -1, -1, 1, 1, -1, -1, 1],
    [1, -1, 1, -1, -1, 1, -1, 1],
    [1, -1, 1, 1, -1, -1, 1, -1],
    [1, 1, -1, -1, -1, -1, 1, 1],
    [1, 1, -1, 1, -1, 1, -1, -1],
    [1, 1, 1, -1, 1, -1, -1, -1],
    [1, 1, 1, 1, 1, 1, 1, 1],
];

fn matrix() -> PlannedExperimentMatrix {
    PlannedExperimentMatrix::new(ModelParams { model_time: 100 })
}

#[test]
fn design_is_the_table_of_all_corners() {
    assert_eq!(EXPERIMENT_COUNT, 8);
    assert_eq!(PARAMS_COUNT, 3);
    let rows = matrix().take_experiments();
    for i in 0..8 {
        for k in 0..8 {
            assert_eq!(rows[i][k], SIGNS[i][k] * 1_000_000);
        }
        let high = |bit: usize| if i & bit != 0 { 1_000_000 } else { -1_000_000 };
        assert_eq!((rows[i][1], rows[i][2], rows[i][3]), (high(4), high(2), high(1)));
        assert_eq!(rows[i][4], rows[i][1] * rows[i][2] / 1_000_000);
        assert_eq!(rows[i][5], rows[i][1] * rows[i][3] / 1_000_000);
        assert_eq!(rows[i][6], rows[i][2] * rows[i][3] / 1_000_000);
        assert_eq!(rows[i][7], rows[i][1] * rows[i][2] / 1_000_000 * rows[i][3] / 1_000_000);
    }
}

#[test]
fn levels_are_plus_and_minus_one() {
    assert_eq!(ONE, 1_000_000);
    assert_eq!(COEFFICIENT_ONE, 8_000_000);
    assert_eq!(XMAX, 1_000_000);
    assert_eq!(XMIN, -1_000_000);
    assert_eq!(bool_to_val(true), 1_000_000);
    assert_eq!(bool_to_val(false), -1_000_000);
}

#[test]
fn products_are_taken_in_millionths() {
    let row = [1_000_000, 500_000, -2_000_000, 3_000_000, 0, 0, 0, 0];
    assert_eq!(x12(&row), Some(-1_000_000));
    assert_eq!(x13(&row), Some(1_500_000));
    assert_eq!(x23(&row), Some(-6_000_000));
    assert_eq!(x123(&row), Some(-3_000_000));
    assert_eq!(
        row_of(500_000, -2_000_000, 3_000_000),
        Some([1_000_000, 500_000, -2_000_000, 3_000_000, -1_000_000, 1_500_000, -6_000_000, -3_000_000])
    );
}

#[test]
fn products_round_toward_zero() {
    assert_eq!(times(1, 1), Some(0));
    assert_eq!(times(1_500_000, 1), Some(1));
    assert_eq!(times(-1_500_000, 1), Some(-1));
    assert_eq!(times(1_999_999, -1), Some(-1));
    assert_eq!(times(-333_333, -333_333), Some(111_110));
    assert_eq!(times(0, i64::MIN), Some(0));
}

#[test]
fn products_need_room() {
    assert_eq!(times(i64::MAX, i64::MAX), None);
    assert_eq!(times(i64::MIN, 1_000_001), None);
    assert_eq!(times(i64::MIN, 1_000_000), Some(i64::MIN));
    assert_eq!(times(i64::MAX, -1_000_000), Some(-i64::MAX));
    let row = [1_000_000, i64::MAX, i64::MAX, 1, 0, 0, 0, 0];
    assert_eq!(x12(&row), None);
    assert_eq!(x123(&row), None);
    assert_eq!(x13(&row), Some(9_223_372_036_854));
    assert_eq!(row_of(i64::MAX, i64::MAX, 1), None);
}

#[test]
fn distances_have_room() {
    assert_eq!(abs_diff(3, 10), 7);
    assert_eq!(abs_diff(10, 3), 7);
    assert_eq!(abs_diff(-5, 5), 10);
    assert_eq!(abs_diff(i64::MIN, i64::MAX), u64::MAX);
    assert_eq!(abs_diff(i64::MAX, i64::MIN), u64::MAX);
}

#[test]
fn scale_goes_from_end_to_end() {
    assert_eq!(PlannedExperimentMatrix::scale(XMIN, (100, 300)), Some(100));
    assert_eq!(PlannedExperimentMatrix::scale(XMAX, (100, 300)), Some(300));
    assert_eq!(PlannedExperimentMatrix::scale(0, (100, 300)), Some(200));
    assert_eq!(PlannedExperimentMatrix::scale(500_000, (100, 300)), Some(250));
    assert_eq!(PlannedExperimentMatrix::scale(-500_000, (300, 100)), Some(250));
    assert_eq!(PlannedExperimentMatrix::scale(1, (0, 3)), Some(1));
    assert_eq!(PlannedExperimentMatrix::scale(-1, (3, 0)), Some(2));
    assert_eq!(PlannedExperimentMatrix::scale(XMAX, (0, u64::MAX)), Some(u64::MAX));
    assert_eq!(PlannedExperimentMatrix::scale(XMIN, (u64::MAX, 0)), Some(u64::MAX));
    assert_eq!(PlannedExperimentMatrix::scale(0, (7, 7)), Some(7));
}

#[test]
fn scale_knows_no_level_outside_the_design() {
    assert_eq!(PlannedExperimentMatrix::scale(XMAX + 1, (100, 300)), None);
    assert_eq!(PlannedExperimentMatrix::scale(XMIN - 1, (100, 300)), None);
    assert_eq!(PlannedExperimentMatrix::scale(i64::MIN, (100, 300)), None);
}

#[test]
fn scale_inv_measures_in_half_widths() {
    assert_eq!(PlannedExperimentMatrix::scale_inv(200, (100, 300)), Ok(0));
    assert_eq!(PlannedExperimentMatrix::scale_inv(250, (100, 300)), Ok(500_000));
    assert_eq!(PlannedExperimentMatrix::scale_inv(50, (100, 300)), Ok(-1_500_000));
    assert_eq!(PlannedExperimentMatrix::scale_inv(500, (100, 300)), Ok(3_000_000));
    assert_eq!(PlannedExperimentMatrix::scale_inv(250, (300, 100)), Ok(-500_000));
    assert_eq!(PlannedExperimentMatrix::scale_inv(1_000_000, (500_000, 2_000_000)), Ok(-333_333));
    assert_eq!(PlannedExperimentMatrix::scale_inv(1_500_000, (500_000, 2_000_000)), Ok(333_333));
}

#[test]
fn scale_inv_undoes_scale_at_both_levels() {
    let ranges = [
        (100_000, 300_000),
        (1, 2),
        (0, 1),
        (0, u64::MAX),
        (u64::MAX, 0),
        (7, 1_000_003),
        (u64::MAX - 1, u64::MAX),
        (123_456_789, 987_654_321_012),
        (300_000, 100_000),
    ];
    for r in ranges {
        for x in [XMIN, XMAX] {
            let value = PlannedExperimentMatrix::scale(x, r).unwrap();
            assert_eq!(value, if x == XMIN { r.0 } else { r.1 });
            assert_eq!(PlannedExperimentMatrix::scale_inv(value, r), Ok(x));
        }
    }
}

#[test]
fn scale_inv_needs_a_range_with_a_width() {
    assert_eq!(
        PlannedExperimentMatrix::scale_inv(5, (7, 7)),
        Err(ModelError::InvalidDistributionParameters)
    );
    assert_eq!(
        PlannedExperimentMatrix::scale_inv(7, (7, 7)),
        Err(ModelError::InvalidDistributionParameters)
    );
}

#[test]
fn scale_inv_needs_room() {
    assert_eq!(PlannedExperimentMatrix::scale_inv(u64::MAX, (0, 1)), Err(ModelError::Overflow));
    assert_eq!(PlannedExperimentMatrix::scale_inv(0, (u64::MAX - 1, u64::MAX)), Err(ModelError::Overflow));
    assert_eq!(
        PlannedExperimentMatrix::scale_inv(4_611_686_018_427, (0, 1)),
        Ok(9_223_372_036_853_000_000)
    );
    assert_eq!(
        PlannedExperimentMatrix::scale_inv(4_611_686_018_428, (0, 1)),
        Err(ModelError::Overflow)
    );
}

#[test]
fn solving_matrix_is_the_design_across_the_diagonal_by_the_number_of_rows() {
    let m = matrix();
    let xmat = m.xmat();
    for i in 0..8 {
        for j in 0..8 {
            assert_eq!(xmat[i][j], SIGNS[j][i] * 1_000_000);
        }
    }
    let rows = m.take_experiments();
    for i in 0..8 {
        for k in 0..8 {
            let dot: i64 = (0..8).map(|j| times(xmat[i][j], rows[j][k]).unwrap()).sum();
            assert_eq!(dot, if i == k { 8_000_000 } else { 0 });
        }
    }
}

#[test]
fn fit_of_one_response() {
    let result = matrix().fit([800_000, 0, 0, 0, 0, 0, 0, 0]).unwrap();
    assert_eq!(
        result,
        PlannedExperimentResult {
            b: [800_000, -800_000, -800_000, -800_000, 800_000, 800_000, 800_000, -800_000],
            y: [800_000, 0, 0, 0, 0, 0, 0, 0],
            y_linear: [400_000, 200_000, 200_000, 0, 200_000, 0, 0, -200_000],
            y_non_linear: [800_000, 0, 0, 0, 0, 0, 0, 0],
        }
    );
    assert_eq!(result.y_linear_delta(0), 400_000);
    assert_eq!(result.y_linear_delta(3), 0);
    assert_eq!(result.y_linear_delta(7), 200_000);
    for i in 0..8 {
        assert_eq!(result.y_non_linear_delta(i), 0);
    }
}

#[test]
fn fit_of_a_column_of_the_design_is_that_coefficient_alone() {
    let rows = matrix().take_experiments();
    for k in 0..8 {
        let mut y = [0i64; 8];
        for j in 0..8 {
            y[j] = rows[j][k];
        }
        let result = matrix().fit(y).unwrap();
        for i in 0..8 {
            assert_eq!(result.b[i], if i == k { 8_000_000 } else { 0 });
        }
        assert_eq!(result.y_non_linear, y);
    }
}

#[test]
fn fit_gives_back_the_responses() {
    let y = [7, 15, 0, 1, 9, 100, 1_000_003, 8];
    let result = matrix().fit(y).unwrap();
    assert_eq!(result.y_non_linear, y);
    assert_eq!(result.b[0], 1_000_143);
    assert_eq!(result.b[7], -7 + 15 + 0 - 1 + 9 - 100 - 1_000_003 + 8);
    for i in 0..8 {
        assert_eq!(result.y_non_linear_delta(i), 0);
    }
    let y = [-9, -8, -1, 0, 1, 8, 9, -1_000_001];
    let result = matrix().fit(y).unwrap();
    assert_eq!(result.y_non_linear, y);
    let y = [125_000, 250_000, 375_000, 500_000, 625_000, 750_000, 875_000, 1_000_000];
    let result = matrix().fit(y).unwrap();
    assert_eq!(result.y_non_linear, y);
    assert_eq!(result.b, [4_500_000, 2_000_000, 1_000_000, 500_000, 0, 0, 0, 0]);
    assert_eq!(result.y_linear, y);
}

#[test]
fn linear_prediction_rounds_toward_zero() {
    let result = matrix().fit([1, 0, 0, 0, 0, 0, 0, 0]).unwrap();
    assert_eq!(result.b, [1, -1, -1, -1, 1, 1, 1, -1]);
    assert_eq!(result.y_linear, [0, 0, 0, 0, 0, 0, 0, 0]);
    assert_eq!(result.y_non_linear, [1, 0, 0, 0, 0, 0, 0, 0]);
    let result = matrix().fit([-3, 0, 0, 0, 0, 0, 0, 0]).unwrap();
    assert_eq!(result.y_linear, [-1, 0, 0, 0, 0, 0, 0, 0]);
    assert_eq!(result.y_linear_delta(0), 2);
    assert_eq!(result.y_linear_delta(7), 0);
}

#[test]
fn fit_needs_room() {
    let y = [i64::MIN, 0, 0, i64::MAX, 0, i64::MAX, i64::MAX, i64::MAX];
    assert_eq!(matrix().fit(y).err(), Some(ModelError::Overflow));
    assert_eq!(matrix().fit([i64::MAX; 8]).err(), Some(ModelError::Overflow));
    assert_eq!(matrix().fit([i64::MAX, 1, 0, 0, 0, 0, 0, 0]).err(), Some(ModelError::Overflow));
    let y = [i64::MAX / 8; 8];
    let result = matrix().fit(y).unwrap();
    assert_eq!(result.b, [i64::MAX - 7, 0, 0, 0, 0, 0, 0, 0]);
    assert_eq!(result.y_non_linear, y);
    assert_eq!(result.y_linear, y);
}

#[test]
fn predictions_add_up_the_products() {
    let b = [100, 200, 300, 400, 500, 600, 700, 800];
    let x = [1_000_000, 0, 500_000, 1_000_000, 0, 0, 500_000, 0];
    assert_eq!(PlannedExperimentMatrix::linear(&b, &x), Some(650 / 8));
    assert_eq!(PlannedExperimentMatrix::non_linear(&b, &x), Some(1000 / 8));
    let x = [1_000_000, -1_000_000, 2_500_000, 1, 1_000_000, 1, 1, -3_000_000];
    assert_eq!(PlannedExperimentMatrix::linear(&b, &x), Some(81));
    assert_eq!(PlannedExperimentMatrix::non_linear(&b, &x), Some(-156));
    let b = [8_000_000, 0, 0, 0, 0, 0, 0, 4_000_000];
    assert_eq!(PlannedExperimentMatrix::linear(&b, &x), Some(1_000_000));
    assert_eq!(PlannedExperimentMatrix::non_linear(&b, &x), Some(1_000_000 - 1_500_000));
}

#[test]
fn predictions_need_room() {
    let b = [i64::MAX, i64::MAX, 0, 0, 0, 0, 0, i64::MAX];
    let x = [1_000_000, 1_000_000, 0, 0, 0, 0, 0, 2_000_000];
    assert_eq!(PlannedExperimentMatrix::linear(&b, &x), None);
    assert_eq!(PlannedExperimentMatrix::non_linear(&b, &x), None);
    let x = [1_000_000, -1_000_000, 0, 0, 0, 0, 0, 2_000_000];
    assert_eq!(PlannedExperimentMatrix::linear(&b, &x), Some(0));
    assert_eq!(PlannedExperimentMatrix::non_linear(&b, &x), None);
}

#[test]
fn comparison_at_a_point() {
    let ranges = [(100, 300), (100, 300), (100, 300)];
    let b = [100, 200, 300, 400, 500, 600, 700, 800];
    assert_eq!(
        PlannedExperimentMatrix::compare(900, 200, 250, 300, ranges, b),
        Ok(PlannedExperimentResultSingle {
            xrow: [1_000_000, 0, 500_000, 1_000_000, 0, 0, 500_000, 0],
            y: 900,
            y_linear: 81,
            y_non_linear: 125,
            y_linear_delta: 819,
            y_non_linear_delta: 775,
        })
    );
}

#[test]
fn comparison_fails_on_the_first_value_without_a_level() {
    let b = [0; 8];
    assert_eq!(
        PlannedExperimentMatrix::compare(0, u64::MAX, 1, 1, [(0, 1), (5, 5), (0, 1)], b).err(),
        Some(ModelError::Overflow)
    );
    assert_eq!(
        PlannedExperimentMatrix::compare(0, 1, 1, u64::MAX, [(0, 1), (5, 5), (0, 1)], b).err(),
        Some(ModelError::InvalidDistributionParameters)
    );
    assert_eq!(
        PlannedExperimentMatrix::compare(0, 1, 1, u64::MAX, [(0, 1), (5, 6), (0, 1)], b).err(),
        Some(ModelError::Overflow)
    );
    assert_eq!(
        PlannedExperimentMatrix::compare(
            0,
            4_000_000_000_000,
            4_000_000_000_000,
            0,
            [(0, 1), (0, 1), (0, 1)],
            b
        )
        .err(),
        Some(ModelError::Overflow)
    );
}

#[test]
fn station_is_made_from_intensities() {
    let mut rng = Replay::new(vec![3, 4]);
    let model = station(ModelParams { model_time: 9 }, 1_000_000, 500_000, 250_000, &mut rng).unwrap();
    assert_eq!(model.model_time(), 9);
    assert_eq!(model.generator(0).unwrap().sigma(), 797_884);
    assert_eq!(model.generator(0).unwrap().next_event(), 7);
    assert_eq!(model.service(0).unwrap().mean(), 2_000_000);
    assert_eq!(model.service(0).unwrap().sigma(), 250_000);
    assert!(model.generator(1).is_none());
    assert!(model.service(1).is_none());
    for (g, s, sigma) in [(0, 1, 1), (1, 0, 1), (1, 1, 0), (797_884_560_803, 1, 1)] {
        assert_eq!(
            station(ModelParams { model_time: 9 }, g, s, sigma, &mut rng).err(),
            Some(ModelError::InvalidDistributionParameters)
        );
    }
    assert_eq!(rng.remaining(), 0);
}

#[test]
fn experiment_with_the_same_load_at_every_corner() {
    let mut rng = Constant { gap: 10, service: 4 };
    let ranges = [(500_000, 2_000_000), (500_000, 2_000_000), (100_000, 900_000)];
    let result = matrix().run(3, ranges, &mut rng).unwrap();
    assert_eq!(
        result,
        PlannedExperimentResult {
            b: [2_240_000, 0, 0, 0, 0, 0, 0, 0],
            y: [280_000; 8],
            y_linear: [280_000; 8],
            y_non_linear: [280_000; 8],
        }
    );
}

/// Gaps and service times that follow the parameters asked for.
struct Scaled;

impl RandomSource for Scaled {
    fn rayleigh(&mut self, sigma: u64) -> Result<u64, SampleError> {
        Ok(sigma / 100_000)
    }

    fn log_normal(&mut self, mean: u64, _sigma: u64) -> Result<u64, SampleError> {
        Ok(mean / 500_000)
    }

    fn has_log_normal(&self, _mean: u64, _sigma: u64) -> bool {
        true
    }
}

#[test]
fn experiment_runs_each_corner_at_its_own_values() {
    let ranges = [(398_942, 797_884), (50_000, 250_000), (100_000, 900_000)];
    let result = matrix().run(1, ranges, &mut Scaled).unwrap();
    assert_eq!(
        result.y,
        [400_000, 400_000, 160_000, 160_000, 400_000, 400_000, 560_000, 560_000]
    );
    for i in 0..8 {
        assert_eq!(result.y_non_linear[i], result.y[i]);
    }
    assert_eq!(result.b, [3_040_000, 800_000, -160_000, 0, 800_000, 0, 0, 0]);
    assert_eq!(
        result.y_linear,
        [300_000, 300_000, 260_000, 260_000, 500_000, 500_000, 460_000, 460_000]
    );
    assert_eq!(result.y_linear_delta(0), 100_000);
    assert_eq!(result.y_linear_delta(6), 100_000);
}

#[test]
fn experiment_without_replications_is_refused() {
    let mut rng = Constant { gap: 10, service: 4 };
    let ranges = [(500_000, 2_000_000), (500_000, 2_000_000), (100_000, 900_000)];
    assert_eq!(matrix().run(0, ranges, &mut rng).err(), Some(ModelError::EmptySystem));
    assert_eq!(
        matrix().run_single(0, 1_000_000, 1_000_000, 500_000, ranges, [0; 8], &mut rng).err(),
        Some(ModelError::EmptySystem)
    );
}

#[test]
fn experiment_over_values_that_no_station_has_is_refused() {
    let mut rng = Constant { gap: 10, service: 4 };
    for ranges in [
        [(0, 2_000_000), (500_000, 2_000_000), (100_000, 900_000)],
        [(500_000, 2_000_000), (0, 2_000_000), (100_000, 900_000)],
        [(500_000, 2_000_000), (500_000, 2_000_000), (0, 900_000)],
        [(500_000, 2_000_000), (500_000, 2_000_000), (100_000, 0)],
        [(500_000, 797_884_560_803), (500_000, 2_000_000), (100_000, 900_000)],
    ] {
        assert_eq!(
            matrix().run(2, ranges, &mut rng).err(),
            Some(ModelError::InvalidDistributionParameters)
        );
    }
    assert_eq!(
        matrix()
            .run_single(
                2,
                0,
                1,
                1,
                [(500_000, 2_000_000), (500_000, 2_000_000), (100_000, 900_000)],
                [0; 8],
                &mut rng
            )
            .err(),
        Some(ModelError::InvalidDistributionParameters)
    );
}

#[test]
fn single_point_is_run_and_compared() {
    let mut rng = Constant { gap: 10, service: 4 };
    let ranges = [(500_000, 2_000_000), (500_000, 2_000_000), (100_000, 900_000)];
    let b = [2_240_000, 0, 0, 0, 0, 0, 0, 0];
    assert_eq!(
        matrix().run_single(2, 1_000_000, 1_000_000, 500_000, ranges, b, &mut rng),
        Ok(PlannedExperimentResultSingle {
            xrow: [1_000_000, -333_333, -333_333, 0, 111_110, 0, 0, 0],
            y: 280_000,
            y_linear: 280_000,
            y_non_linear: 280_000,
            y_linear_delta: 0,
            y_non_linear_delta: 0,
        })
    );
    let b = [1_600_000, 240_000, 0, 0, 720_000, 0, 0, 0];
    let single = matrix()
        .run_single(2, 1_000_000, 1_000_000, 500_000, ranges, b, &mut rng)
        .unwrap();
    assert_eq!(single.y_linear, (1_600_000 - 79_999) / 8);
    assert_eq!(single.y_linear, 190_000);
    assert_eq!(single.y_non_linear, (1_600_000 - 79_999 + 79_999) / 8);
    assert_eq!(single.y_linear_delta, 90_000);
    assert_eq!(single.y_non_linear_delta, 80_000);
}

#[test]
fn single_point_with_a_range_without_width_is_refused_after_the_runs() {
    let mut rng = Replay::new(vec![10, 10]);
    let ranges = [(500_000, 500_000), (500_000, 2_000_000), (100_000, 900_000)];
    let m = PlannedExperimentMatrix::new(ModelParams { model_time: 0 });
    assert_eq!(
        m.run_single(1, 1_000_000, 1_000_000, 500_000, ranges, [0; 8], &mut rng).err(),
        Some(ModelError::NonTotalOrder)
    );
    let mut rng = Replay::new(vec![10, 10, 10, 10]);
    assert_eq!(
        m.run_single(1, 1_000_000, 1_000_000, 500_000, ranges, [0; 8], &mut rng).err(),
        Some(ModelError::InvalidDistributionParameters)
    );
    assert_eq!(rng.remaining(), 0);
}
