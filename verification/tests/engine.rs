use portfolio_sim::config::{HistoricalReturns, SimulationConfig, SimulationError, RATE_SCALE};
use portfolio_sim::evolution::calculate_year_performance;
use portfolio_sim::lifetime::{
    advance_lifetime, replay_lifetime, report_outcome, simulate_investor_lifetime,
    simulate_investor_trajectory, simulate_trajectory, LifetimeState,
};
use portfolio_sim::resampler::Resampler;

fn all_stock(initial: i64, contribution: i64, withdrawal: i64, years: u32, horizon: u32) -> SimulationConfig {
    SimulationConfig::new(initial, contribution, withdrawal, years, horizon, RATE_SCALE, 0, 1).unwrap()
}

fn flat_five_percent() -> HistoricalReturns {
    HistoricalReturns::new(vec![50_000], vec![0]).unwrap()
}

#[test]
fn weights_that_sum_to_one_are_accepted() {
    let cfg = SimulationConfig::new(1, 2, 3, 4, 5, 600_000, 400_000, 7).unwrap();
    assert_eq!(cfg.initial_capital, 1);
    assert_eq!(cfg.contribution, 2);
    assert_eq!(cfg.withdrawal, 3);
    assert_eq!(cfg.contribution_years, 4);
    assert_eq!(cfg.horizon, 5);
    assert_eq!(cfg.stock_weight, 600_000);
    assert_eq!(cfg.bond_weight, 400_000);
    assert_eq!(cfg.simulation_count, 7);
}

#[test]
fn weights_that_do_not_sum_to_one_are_rejected() {
    assert_eq!(
        SimulationConfig::new(1, 2, 3, 4, 5, 600_000, 400_001, 7),
        Err(SimulationError::WeightsNotUnit)
    );
    assert_eq!(
        SimulationConfig::new(1, 2, 3, 4, 5, 600_000, 399_999, 7),
        Err(SimulationError::WeightsNotUnit)
    );
    assert_eq!(
        SimulationConfig::new(1, 2, 3, 4, 5, u32::MAX, u32::MAX, 7),
        Err(SimulationError::WeightsNotUnit)
    );
    assert_eq!(SimulationConfig::new(1, 2, 3, 4, 5, 0, 0, 7), Err(SimulationError::WeightsNotUnit));
}

#[test]
fn series_of_unequal_length_are_rejected() {
    let stocks: Vec<i32> = vec![10_000; 10];
    let bonds: Vec<i32> = vec![5_000; 12];
    let r = HistoricalReturns::new(stocks, bonds);
    assert!(matches!(r, Err(SimulationError::SeriesLengthMismatch)));
}

#[test]
fn empty_series_are_rejected() {
    let r = HistoricalReturns::new(Vec::new(), Vec::new());
    assert!(matches!(r, Err(SimulationError::EmptySeries)));
}

#[test]
fn series_are_kept_as_given() {
    let data = HistoricalReturns::new(vec![1, -2, 3], vec![-4, 5, -6]).unwrap();
    assert_eq!(data.stocks, vec![1, -2, 3]);
    assert_eq!(data.bonds, vec![-4, 5, -6]);
    assert_eq!(data.len(), 3);
}

#[test]
fn error_messages_name_the_failing_input() {
    assert_eq!(
        SimulationError::WeightsNotUnit.message(),
        "configuration error: stock and bond weights must sum to 1.0"
    );
    assert_eq!(
        SimulationError::SeriesLengthMismatch.message(),
        "configuration error: return series differ in length"
    );
    assert_eq!(SimulationError::EmptySeries.message(), "configuration error: return series are empty");
    assert_eq!(SimulationError::ZeroSimulations.message(), "configuration error: simulation count is zero");
    assert_eq!(SimulationError::ValueOutOfRange.message(), "portfolio value out of range");
}

#[test]
fn year_performance_applies_the_blended_return() {
    assert_eq!(calculate_year_performance(50_000, 0, 135_000, 1_000_000, 0), Some(141_750));
    assert_eq!(calculate_year_performance(100_000, -20_000, 1_000_003, 600_000, 400_000), Some(1_052_003));
    assert_eq!(calculate_year_performance(0, 50_000, 135_000, 0, 1_000_000), Some(141_750));
    assert_eq!(calculate_year_performance(0, 0, 77, 500_000, 500_000), Some(77));
}

#[test]
fn year_performance_rounds_down() {
    assert_eq!(calculate_year_performance(100_000, -20_000, -1_000_003, 600_000, 400_000), Some(-1_052_004));
    assert_eq!(calculate_year_performance(-333_333, 0, 1_000, 1_000_000, 0), Some(666));
    assert_eq!(calculate_year_performance(-500_000, 0, 1, 1_000_000, 0), Some(0));
    assert_eq!(calculate_year_performance(-500_000, 0, 3, 1_000_000, 0), Some(1));
}

#[test]
fn year_performance_does_not_clamp_losses() {
    assert_eq!(calculate_year_performance(-2_000_000, 0, 1_000, 1_000_000, 0), Some(-1_000));
}

#[test]
fn year_performance_reports_values_out_of_range() {
    assert_eq!(calculate_year_performance(1, 0, i64::MAX, 1_000_000, 0), None);
    assert_eq!(calculate_year_performance(i32::MAX, i32::MAX, i64::MIN, 500_000, 500_000), None);
    assert_eq!(calculate_year_performance(0, 0, i64::MAX, 1_000_000, 0), Some(i64::MAX));
    assert_eq!(calculate_year_performance(0, 0, i64::MIN, 1_000_000, 0), Some(i64::MIN));
}

#[test]
fn drawn_indices_are_inside_the_sample_space() {
    let mut rng = Resampler::new();
    for n in 1..40usize {
        for _ in 0..200 {
            assert!(rng.draw_period_index(n) < n);
        }
    }
    assert_eq!(rng.draw_period_index(1), 0);
}

#[test]
fn draws_are_roughly_uniform() {
    let mut rng = Resampler::seeded(2024);
    let n: usize = 8;
    let m: usize = 80_000;
    let mut counts = vec![0usize; n];
    for _ in 0..m {
        counts[rng.draw_period_index(n)] += 1;
    }
    for c in counts {
        assert!(c > 9_000 && c < 11_000);
    }
}

#[test]
fn draw_indices_gives_the_count_asked_for() {
    let mut rng = Resampler::seeded(5);
    let draws = rng.draw_indices(3, 1_000);
    assert_eq!(draws.len(), 1_000);
    assert!(draws.iter().all(|&d| d < 3));
    assert!(draws.iter().any(|&d| d == 0));
    assert!(draws.iter().any(|&d| d == 1));
    assert!(draws.iter().any(|&d| d == 2));
    assert_eq!(rng.draw_indices(3, 0), Vec::<usize>::new());
}

#[test]
fn equal_seeds_give_equal_draws() {
    let mut a = Resampler::seeded(99);
    let mut b = Resampler::seeded(99);
    assert_eq!(a.draw_indices(1_000, 50), b.draw_indices(1_000, 50));
}

#[test]
fn constant_five_percent_matches_the_closed_recurrence() {
    let cfg = all_stock(13_500_000, 6_000_000, 6_500_000, 25, 75);
    let data = flat_five_percent();
    let draws: Vec<usize> = vec![0; 75];
    let path = simulate_trajectory(&cfg, &data, &draws).unwrap();
    assert_eq!(path.len(), 76);
    assert_eq!(path[0], (0, 13_500_000));
    assert_eq!(path[1], (1, 20_175_000));
    assert_eq!(path[25], (25, 332_078_364));
    assert_eq!(path[26], (26, 342_182_282));
    assert_eq!(path[75], (75, 2_447_313_297));
    for k in 1..=25usize {
        assert!(path[k].1 > path[k - 1].1);
        assert_eq!(path[k].1, path[k - 1].1 + path[k - 1].1 / 20 + 6_000_000);
    }
    for k in 26..=75usize {
        assert_eq!(path[k].1, path[k - 1].1 + path[k - 1].1 / 20 - 6_500_000);
    }
    assert_eq!(replay_lifetime(&cfg, &data, &draws), Ok(2_447_313_297));
}

#[test]
fn constant_five_percent_in_whole_units() {
    let cfg = all_stock(135_000, 60_000, 65_000, 25, 75);
    let data = flat_five_percent();
    let draws: Vec<usize> = vec![0; 75];
    let path = simulate_trajectory(&cfg, &data, &draws).unwrap();
    assert_eq!(path[25].1, 3_320_759);
    assert_eq!(path[75].1, 24_472_748);
    let mut rng = Resampler::seeded(1);
    assert_eq!(simulate_investor_lifetime(&cfg, &data, &mut rng), Ok(24_472_748));
}

#[test]
fn last_contribution_period_still_contributes() {
    let data = HistoricalReturns::new(vec![0], vec![0]).unwrap();
    let cfg = all_stock(1_000, 10, 1, 2, 4);
    let path = simulate_trajectory(&cfg, &data, &vec![0; 4]).unwrap();
    assert_eq!(path, vec![(0, 1_000), (1, 1_010), (2, 1_020), (3, 1_019), (4, 1_018)]);
    let none = all_stock(1_000, 10, 1, 0, 2);
    assert_eq!(simulate_trajectory(&none, &data, &vec![0; 2]).unwrap(), vec![(0, 1_000), (1, 999), (2, 998)]);
}

#[test]
fn trajectory_has_one_point_per_period_and_the_anchor() {
    let cfg = all_stock(100, 1, 1, 2, 5);
    let data = HistoricalReturns::new(vec![10_000, -10_000, 0], vec![0, 0, 0]).unwrap();
    let path = simulate_trajectory(&cfg, &data, &vec![0, 1, 2, 1, 0]).unwrap();
    assert_eq!(path.len(), 6);
    for (k, point) in path.iter().enumerate() {
        assert_eq!(point.0 as usize, k);
    }
    assert_eq!(path, vec![(0, 100), (1, 102), (2, 101), (3, 100), (4, 98), (5, 97)]);
}

#[test]
fn random_trajectory_is_the_path_of_its_draws() {
    let cfg = all_stock(1_000_000, 1_000, 2_000, 3, 12);
    let data = HistoricalReturns::new(vec![70_000, -120_000, 30_000, 0], vec![10_000, 20_000, -5_000, 0]).unwrap();
    let mut rng = Resampler::seeded(7);
    let (path, draws) = simulate_investor_trajectory(&cfg, &data, &mut rng);
    assert_eq!(draws.len(), 12);
    assert!(draws.iter().all(|&d| d < 4));
    assert_eq!(path, simulate_trajectory(&cfg, &data, &draws));
    assert_eq!(path.unwrap().len(), 13);
}

#[test]
fn empty_horizon_reports_the_initial_capital() {
    let cfg = all_stock(42, 1, 1, 0, 0);
    let data = flat_five_percent();
    assert_eq!(replay_lifetime(&cfg, &data, &Vec::new()), Ok(42));
    assert_eq!(simulate_trajectory(&cfg, &data, &Vec::new()), Ok(vec![(0, 42)]));
    let mut rng = Resampler::seeded(3);
    assert_eq!(simulate_investor_lifetime(&cfg, &data, &mut rng), Ok(42));
}

#[test]
fn ruin_ends_the_lifetime_at_zero() {
    let data = HistoricalReturns::new(vec![-500_000, 9_000_000], vec![0, 0]).unwrap();
    let cfg = all_stock(1_000, 0, 300, 0, 5);
    // Ruined in period 2; the gains drawn afterwards change nothing.
    assert_eq!(replay_lifetime(&cfg, &data, &vec![0, 0, 1, 1, 1]), Ok(0));
    assert_eq!(replay_lifetime(&cfg, &data, &vec![0, 0, 0, 0, 0]), Ok(0));
    let path = simulate_trajectory(&cfg, &data, &vec![0, 0, 0, 0, 0]).unwrap();
    assert_eq!(path, vec![(0, 1_000), (1, 200), (2, -200), (3, -400), (4, -500), (5, -550)]);
}

#[test]
fn a_value_of_exactly_zero_is_ruin() {
    let data = HistoricalReturns::new(vec![0], vec![0]).unwrap();
    let cfg = all_stock(300, 0, 300, 0, 3);
    let first = advance_lifetime(&cfg, &data, LifetimeState::Active(300), 1, 0);
    assert_eq!(first, LifetimeState::Ruined);
    assert_eq!(report_outcome(first), Ok(0));
    assert_eq!(replay_lifetime(&cfg, &data, &vec![0, 0, 0]), Ok(0));
}

#[test]
fn ended_lifetimes_stay_ended() {
    let data = flat_five_percent();
    let cfg = all_stock(1, 1_000, 0, 9, 9);
    assert_eq!(advance_lifetime(&cfg, &data, LifetimeState::Ruined, 3, 0), LifetimeState::Ruined);
    assert_eq!(advance_lifetime(&cfg, &data, LifetimeState::OutOfRange, 3, 0), LifetimeState::OutOfRange);
    assert_eq!(advance_lifetime(&cfg, &data, LifetimeState::Active(100), 3, 0), LifetimeState::Active(1_105));
    assert_eq!(advance_lifetime(&cfg, &data, LifetimeState::Active(100), 10, 0), LifetimeState::Active(105));
    assert_eq!(report_outcome(LifetimeState::Active(105)), Ok(105));
    assert_eq!(report_outcome(LifetimeState::OutOfRange), Err(SimulationError::ValueOutOfRange));
}

#[test]
fn values_out_of_range_fail_the_lifetime() {
    let data = HistoricalReturns::new(vec![1_000_000], vec![0]).unwrap();
    let cfg = all_stock(i64::MAX / 2 + 1, 0, 0, 0, 2);
    assert_eq!(replay_lifetime(&cfg, &data, &vec![0, 0]), Err(SimulationError::ValueOutOfRange));
    assert_eq!(simulate_trajectory(&cfg, &data, &vec![0, 0]), Err(SimulationError::ValueOutOfRange));
    let flat = HistoricalReturns::new(vec![0], vec![0]).unwrap();
    let top = all_stock(i64::MAX, 1, 0, 1, 1);
    assert_eq!(replay_lifetime(&top, &flat, &vec![0]), Err(SimulationError::ValueOutOfRange));
    let edge = all_stock(i64::MAX - 1, 1, 0, 1, 1);
    assert_eq!(replay_lifetime(&edge, &flat, &vec![0]), Ok(i64::MAX));
}

#[test]
fn identical_draws_give_identical_outcomes() {
    let cfg = SimulationConfig::new(500_000, 20_000, 45_000, 4, 30, 700_000, 300_000, 1).unwrap();
    let data = HistoricalReturns::new(
        vec![120_000, -250_000, 60_000, 310_000, -90_000],
        vec![30_000, 80_000, -10_000, 20_000, 50_000],
    )
    .unwrap();
    let mut rng = Resampler::seeded(11);
    let draws = rng.draw_indices(5, 30);
    let first = replay_lifetime(&cfg, &data, &draws);
    let second = replay_lifetime(&cfg, &data, &draws.clone());
    assert_eq!(first, second);
    assert_eq!(simulate_trajectory(&cfg, &data, &draws), simulate_trajectory(&cfg, &data, &draws));
    let mut a = Resampler::seeded(12);
    let mut b = Resampler::seeded(12);
    assert_eq!(simulate_investor_lifetime(&cfg, &data, &mut a), simulate_investor_lifetime(&cfg, &data, &mut b));
}

#[test]
fn the_same_draw_selects_both_assets() {
    let cfg = SimulationConfig::new(1_000_000, 0, 0, 0, 1, 500_000, 500_000, 1).unwrap();
    let data = HistoricalReturns::new(vec![100_000, -100_000], vec![20_000, 40_000]).unwrap();
    assert_eq!(replay_lifetime(&cfg, &data, &vec![0]), Ok(1_060_000));
    assert_eq!(replay_lifetime(&cfg, &data, &vec![1]), Ok(970_000));
}
