use portfolio_sim::config::{HistoricalReturns, SimulationConfig, SimulationError};
use portfolio_sim::lifetime::replay_lifetime;
use portfolio_sim::montecarlo::{monte_carlo_generator, replay_monte_carlo, success_rate, SuccessRate};
use portfolio_sim::resampler::Resampler;

#[test]
fn zero_simulations_are_a_configuration_error() {
    let cfg = SimulationConfig::new(135_000, 60_000, 65_000, 25, 75, 1_000_000, 0, 0).unwrap();
    let data = HistoricalReturns::new(vec![50_000], vec![0]).unwrap();
    let mut rng = Resampler::seeded(1);
    assert_eq!(monte_carlo_generator(&cfg, &data, &mut rng), Err(SimulationError::ZeroSimulations));
    assert_eq!(replay_monte_carlo(&cfg, &data, &Vec::new()), Err(SimulationError::ZeroSimulations));
    assert_eq!(success_rate(&Vec::new()), Err(SimulationError::ZeroSimulations));
}

#[test]
fn success_rate_counts_outcomes_above_zero() {
    let rate = success_rate(&vec![0, 5, 0, 12, 1, 0, 0, 9]).unwrap();
    assert_eq!(rate, SuccessRate { passed: 4, total: 8 });
    assert_eq!(rate.percent_millionths(), 50_000_000);
    assert_eq!(success_rate(&vec![0, 0]).unwrap(), SuccessRate { passed: 0, total: 2 });
    assert_eq!(success_rate(&vec![-3, 7]).unwrap(), SuccessRate { passed: 1, total: 2 });
    assert_eq!(success_rate(&vec![1]).unwrap().percent_millionths(), 100_000_000);
    assert_eq!(success_rate(&vec![0]).unwrap().percent_millionths(), 0);
    assert_eq!(success_rate(&vec![1, 0, 0]).unwrap().percent_millionths(), 33_333_333);
}

#[test]
fn monte_carlo_collects_one_outcome_per_trial() {
    let cfg = SimulationConfig::new(135_000, 60_000, 65_000, 25, 75, 1_000_000, 0, 40).unwrap();
    let data = HistoricalReturns::new(vec![50_000], vec![0]).unwrap();
    let mut rng = Resampler::new();
    let outcomes = monte_carlo_generator(&cfg, &data, &mut rng).unwrap();
    assert_eq!(outcomes, vec![24_472_748i64; 40]);
    assert_eq!(success_rate(&outcomes).unwrap(), SuccessRate { passed: 40, total: 40 });
}

#[test]
fn monte_carlo_outcomes_are_never_negative() {
    let cfg = SimulationConfig::new(200_000, 5_000, 30_000, 3, 40, 800_000, 200_000, 300).unwrap();
    let data = HistoricalReturns::new(
        vec![180_000, -370_000, 90_000, 260_000, -120_000, 40_000],
        vec![20_000, 110_000, -30_000, 10_000, 60_000, 0],
    )
    .unwrap();
    let mut rng = Resampler::seeded(77);
    let outcomes = monte_carlo_generator(&cfg, &data, &mut rng).unwrap();
    assert_eq!(outcomes.len(), 300);
    assert!(outcomes.iter().all(|&v| v >= 0));
    let rate = success_rate(&outcomes).unwrap();
    assert_eq!(rate.total, 300);
    assert_eq!(rate.passed, outcomes.iter().filter(|&&v| v > 0).count());
    let mut again = Resampler::seeded(77);
    assert_eq!(monte_carlo_generator(&cfg, &data, &mut again).unwrap(), outcomes);
}

#[test]
fn replayed_run_keeps_the_order_of_the_trials() {
    let cfg = SimulationConfig::new(1_000, 0, 300, 0, 2, 1_000_000, 0, 3).unwrap();
    let data = HistoricalReturns::new(vec![-500_000, 500_000], vec![0, 0]).unwrap();
    let trials = vec![vec![0, 0], vec![1, 1], vec![1, 0]];
    let outcomes = replay_monte_carlo(&cfg, &data, &trials).unwrap();
    assert_eq!(outcomes, vec![0, 1_500, 300]);
    for (trial, outcome) in trials.iter().zip(outcomes.iter()) {
        assert_eq!(replay_lifetime(&cfg, &data, trial), Ok(*outcome));
    }
}

#[test]
fn replayed_run_fails_when_a_trial_leaves_the_range() {
    let cfg = SimulationConfig::new(i64::MAX / 2 + 1, 0, 0, 0, 1, 1_000_000, 0, 2).unwrap();
    let data = HistoricalReturns::new(vec![0, 1_000_000], vec![0, 0]).unwrap();
    assert_eq!(replay_monte_carlo(&cfg, &data, &vec![vec![0], vec![1]]), Err(SimulationError::ValueOutOfRange));
    assert_eq!(replay_monte_carlo(&cfg, &data, &vec![vec![0], vec![0]]), Ok(vec![i64::MAX / 2 + 1; 2]));
}
