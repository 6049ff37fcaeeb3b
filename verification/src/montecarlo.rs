//! Many independent lifetimes, and the statistics of their outcomes.

use vstd::prelude::*;
use crate::config::{HistoricalReturns, SimulationConfig, SimulationError};
use crate::lifetime::{lifetime_outcome, reachable_outcome, replay_lifetime, simulate_investor_lifetime};
use crate::resampler::{valid_draws, Resampler};

verus! {

/// The number of outcomes that are above zero: the lifetimes that did not
/// end in ruin.
pub open spec fn count_passed(outcomes: Seq<i64>) -> nat
    decreases outcomes.len(),
{
    if outcomes.len() == 0 {
        0
    } else {
        count_passed(outcomes.drop_last()) + if outcomes.last() > 0 {
            1nat
        } else {
            0nat
        }
    }
}

/// The success rate of a run as an exact fraction: `passed` of `total`
/// lifetimes ended above zero.
#[derive(Clone, Copy, Debug, PartialEq, Eq, Structural)]
pub struct SuccessRate {
    /// Lifetimes with an outcome above zero.
    pub passed: usize,
    /// All lifetimes of the run; never zero.
    pub total: usize,
}

impl SuccessRate {
    /// At least one lifetime was run, and no more passed than were run.
    pub open spec fn wf(&self) -> bool {
        0 < self.total && self.passed <= self.total
    }

    /// The rate as a percentage in parts per million of a percent, rounded
    /// down: `100_000_000` stands for 100%.
    pub fn percent_millionths(&self) -> (p: u64)
        requires
            self.wf(),
        ensures
            p == (self.passed * 100_000_000) / (self.total as int),
            p <= 100_000_000,
    {
        let scaled: u128 = self.passed as u128 * 100_000_000u128;
        let whole: u128 = scaled / (self.total as u128);
        assert(whole <= 100_000_000) by (nonlinear_arith)
            requires
                whole == (self.passed * 100_000_000) / (self.total as int),
                0 <= self.passed <= self.total,
                0 < self.total,
        ;
        whole as u64
    }
}

/// Counts the outcomes above zero. Refuses an empty run, of which no rate
/// can be given.
pub fn success_rate(outcomes: &Vec<i64>) -> (r: Result<SuccessRate, SimulationError>)
    ensures
        outcomes@.len() == 0 ==> r == Err::<SuccessRate, SimulationError>(SimulationError::ZeroSimulations),
        outcomes@.len() > 0 ==> r == Ok::<SuccessRate, SimulationError>(
            (SuccessRate { passed: count_passed(outcomes@) as usize, total: outcomes@.len() as usize }),
        ) && r->Ok_0.wf(),
{
    if outcomes.len() == 0 {
        return Err(SimulationError::ZeroSimulations);
    }
    let mut passed: usize = 0;
    let mut i: usize = 0;
    while i < outcomes.len()
        invariant
            i <= outcomes@.len(),
            passed <= i,
            passed == count_passed(outcomes@.take(i as int)),
        decreases outcomes@.len() - i,
    {
        proof {
            assert(outcomes@.take(i + 1).drop_last() =~= outcomes@.take(i as int));
            assert(outcomes@.take(i + 1).last() == outcomes@[i as int]);
        }
        if outcomes[i] > 0 {
            passed = passed + 1;
        }
        i = i + 1;
    }
    assert(outcomes@.take(i as int) =~= outcomes@);
    Ok(SuccessRate { passed, total: outcomes.len() })
}

/// Every trial of `trials` is a lifetime of `cfg.horizon` valid draws.
pub open spec fn valid_trials(cfg: SimulationConfig, data: &HistoricalReturns, trials: Seq<Vec<usize>>) -> bool {
    forall|i: int|
        0 <= i < trials.len() ==> (#[trigger] trials[i])@.len() == cfg.horizon && valid_draws(
            trials[i]@,
            data.periods(),
        )
}

/// Every trial of `trials` ends with a value in range.
pub open spec fn all_in_range(cfg: SimulationConfig, data: &HistoricalReturns, trials: Seq<Vec<usize>>) -> bool {
    forall|i: int| 0 <= i < trials.len() ==> lifetime_outcome(cfg, data, (#[trigger] trials[i])@) is Ok
}

/// Replays one lifetime per entry of `trials` and collects the outcomes in
/// the order of the trials. Refuses an empty run; fails when a trial leaves
/// the range of values, and only then.
pub fn replay_monte_carlo(cfg: &SimulationConfig, data: &HistoricalReturns, trials: &Vec<Vec<usize>>) -> (r:
    Result<Vec<i64>, SimulationError>)
    requires
        cfg.wf(),
        data.wf(),
        valid_trials(*cfg, data, trials@),
    ensures
        trials@.len() == 0 ==> r == Err::<Vec<i64>, SimulationError>(SimulationError::ZeroSimulations),
        trials@.len() > 0 && !all_in_range(*cfg, data, trials@) ==> r == Err::<Vec<i64>, SimulationError>(
            SimulationError::ValueOutOfRange,
        ),
        trials@.len() > 0 && all_in_range(*cfg, data, trials@) ==> r is Ok && r->Ok_0@.len() == trials@.len()
            && forall|i: int|
            0 <= i < trials@.len() ==> Ok::<i64, SimulationError>(#[trigger] r->Ok_0@[i]) == lifetime_outcome(
                *cfg,
                data,
                trials@[i]@,
            ),
{
    if trials.len() == 0 {
        return Err(SimulationError::ZeroSimulations);
    }
    let mut outcomes: Vec<i64> = Vec::new();
    let mut i: usize = 0;
    while i < trials.len()
        invariant
            cfg.wf(),
            data.wf(),
            valid_trials(*cfg, data, trials@),
            i <= trials@.len(),
            outcomes@.len() == i,
            forall|j: int|
                0 <= j < i ==> Ok::<i64, SimulationError>(#[trigger] outcomes@[j]) == lifetime_outcome(
                    *cfg,
                    data,
                    trials@[j]@,
                ),
        decreases trials@.len() - i,
    {
        let result = replay_lifetime(cfg, data, &trials[i]);
        match result {
            Ok(value) => {
                outcomes.push(value);
            },
            Err(_) => {
                return Err(SimulationError::ValueOutOfRange);
            },
        }
        i = i + 1;
    }
    assert forall|j: int| 0 <= j < trials@.len() implies lifetime_outcome(*cfg, data, (#[trigger] trials@[j])@) is Ok by {
        assert(Ok::<i64, SimulationError>(outcomes@[j]) == lifetime_outcome(*cfg, data, trials@[j]@));
    }
    Ok(outcomes)
}

/// Runs `cfg.simulation_count` independent lifetimes, each drawing from
/// `rng`, and collects their outcomes in the order of the trials. A count of
/// zero is refused before anything is simulated. Every outcome is that of a
/// lifetime of `cfg.horizon` valid draws; the run fails only on a count of
/// zero or when a trial left the range of values.
pub fn monte_carlo_generator(cfg: &SimulationConfig, data: &HistoricalReturns, rng: &mut Resampler) -> (r: Result<
    Vec<i64>,
    SimulationError,
>)
    requires
        cfg.wf(),
        data.wf(),
    ensures
        cfg.simulation_count == 0 ==> r == Err::<Vec<i64>, SimulationError>(SimulationError::ZeroSimulations),
        r is Ok ==> cfg.simulation_count > 0 && r->Ok_0@.len() == cfg.simulation_count && forall|i: int|
            0 <= i < r->Ok_0@.len() ==> reachable_outcome(
                *cfg,
                data,
                Ok::<i64, SimulationError>(#[trigger] r->Ok_0@[i]),
            ),
        r is Err && cfg.simulation_count > 0 ==> r->Err_0 == SimulationError::ValueOutOfRange && reachable_outcome(
            *cfg,
            data,
            Err::<i64, SimulationError>(SimulationError::ValueOutOfRange),
        ),
{
    if cfg.simulation_count == 0 {
        return Err(SimulationError::ZeroSimulations);
    }
    let mut outcomes: Vec<i64> = Vec::new();
    let mut i: u32 = 0;
    while i < cfg.simulation_count
        invariant
            cfg.wf(),
            data.wf(),
            cfg.simulation_count > 0,
            i <= cfg.simulation_count,
            outcomes@.len() == i,
            forall|j: int|
                0 <= j < i ==> reachable_outcome(*cfg, data, Ok::<i64, SimulationError>(#[trigger] outcomes@[j])),
        decreases cfg.simulation_count - i,
    {
        let result = simulate_investor_lifetime(cfg, data, rng);
        match result {
            Ok(value) => {
                outcomes.push(value);
            },
            Err(_) => {
                return Err(SimulationError::ValueOutOfRange);
            },
        }
        i = i + 1;
    }
    Ok(outcomes)
}

} // verus!
