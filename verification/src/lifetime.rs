//! One simulated lifetime: a portfolio carried through every period of the
//! horizon, as a single outcome or as the whole path.

use vstd::prelude::*;
use crate::config::{HistoricalReturns, SimulationConfig, SimulationError};
use crate::evolution::{advance, advance_wide, in_value_range};
use crate::resampler::{valid_draws, Resampler};

verus! {

/// Where a lifetime stands after some periods.
#[derive(Clone, Copy, Debug, PartialEq, Eq, Structural)]
pub enum LifetimeState {
    /// Still running, with a positive portfolio value (or, before the first
    /// period, the initial capital).
    Active(i64),
    /// The portfolio fell to zero or below: the lifetime ended.
    Ruined,
    /// The portfolio value left the range of `i64`: the lifetime ended.
    OutOfRange,
}

/// The portfolio value at the end of period `period`, which drew the
/// historical period `index`: the returns are applied to `value`, then the
/// period's cash flow is added.
pub open spec fn period_value(
    cfg: SimulationConfig,
    data: &HistoricalReturns,
    value: int,
    period: int,
    index: int,
) -> int {
    advance(
        value,
        data.stocks@[index] as int,
        data.bonds@[index] as int,
        cfg.stock_weight as int,
        cfg.bond_weight as int,
    ) + cfg.cash_flow(period)
}

/// One step of the lifetime: an active lifetime moves to the value of the
/// period, ends in ruin when that value is zero or less, and ends out of
/// range when it does not fit; a lifetime that has ended stays as it is.
pub open spec fn next_state(
    cfg: SimulationConfig,
    data: &HistoricalReturns,
    state: LifetimeState,
    period: int,
    index: int,
) -> LifetimeState {
    match state {
        LifetimeState::Active(v) => {
            let n = period_value(cfg, data, v as int, period, index);
            if !in_value_range(n) {
                LifetimeState::OutOfRange
            } else if n <= 0 {
                LifetimeState::Ruined
            } else {
                LifetimeState::Active(n as i64)
            }
        },
        _ => state,
    }
}

/// The state of a lifetime after the periods `1..=draws.len()`, where period
/// `p` drew the historical period `draws[p - 1]`.
pub open spec fn state_after(cfg: SimulationConfig, data: &HistoricalReturns, draws: Seq<usize>) -> LifetimeState
    decreases draws.len(),
{
    if draws.len() == 0 {
        LifetimeState::Active(cfg.initial_capital)
    } else {
        next_state(
            cfg,
            data,
            state_after(cfg, data, draws.drop_last()),
            draws.len() as int,
            draws.last() as int,
        )
    }
}

/// What a lifetime reports: its value while it is active, zero after ruin,
/// an error when the value left the range.
pub open spec fn outcome_of(state: LifetimeState) -> Result<i64, SimulationError> {
    match state {
        LifetimeState::Active(v) => Ok(v),
        LifetimeState::Ruined => Ok(0i64),
        LifetimeState::OutOfRange => Err(SimulationError::ValueOutOfRange),
    }
}

/// The outcome of the lifetime that draws `draws`, one per period.
pub open spec fn lifetime_outcome(
    cfg: SimulationConfig,
    data: &HistoricalReturns,
    draws: Seq<usize>,
) -> Result<i64, SimulationError> {
    outcome_of(state_after(cfg, data, draws))
}

/// `outcome` is what some lifetime of `cfg.horizon` draws from `data` reports.
pub open spec fn reachable_outcome(
    cfg: SimulationConfig,
    data: &HistoricalReturns,
    outcome: Result<i64, SimulationError>,
) -> bool {
    exists|draws: Seq<usize>|
        draws.len() == cfg.horizon && valid_draws(draws, data.periods()) && #[trigger] lifetime_outcome(
            cfg,
            data,
            draws,
        ) == outcome
}

/// Carries a lifetime through period `period`, which drew `index`.
pub fn advance_lifetime(
    cfg: &SimulationConfig,
    data: &HistoricalReturns,
    state: LifetimeState,
    period: u32,
    index: usize,
) -> (next: LifetimeState)
    requires
        cfg.wf(),
        data.wf(),
        index < data.periods(),
    ensures
        next == next_state(*cfg, data, state, period as int, index as int),
{
    match state {
        LifetimeState::Active(value) => {
            let grown: i128 = advance_wide(
                data.stocks[index],
                data.bonds[index],
                value,
                cfg.stock_weight,
                cfg.bond_weight,
            );
            let cash: i128 = if period <= cfg.contribution_years {
                cfg.contribution as i128
            } else {
                -(cfg.withdrawal as i128)
            };
            let total: i128 = grown + cash;
            if total < i64::MIN as i128 || total > i64::MAX as i128 {
                LifetimeState::OutOfRange
            } else if total <= 0 {
                LifetimeState::Ruined
            } else {
                LifetimeState::Active(total as i64)
            }
        },
        LifetimeState::Ruined => LifetimeState::Ruined,
        LifetimeState::OutOfRange => LifetimeState::OutOfRange,
    }
}

/// The outcome that a state reports.
pub fn report_outcome(state: LifetimeState) -> (r: Result<i64, SimulationError>)
    ensures
        r == outcome_of(state),
{
    match state {
        LifetimeState::Active(v) => Ok(v),
        LifetimeState::Ruined => Ok(0),
        LifetimeState::OutOfRange => Err(SimulationError::ValueOutOfRange),
    }
}

/// A lifetime that has ended stays as it ended, whatever is drawn afterwards.
pub proof fn lemma_ended_stays_ended(
    cfg: SimulationConfig,
    data: &HistoricalReturns,
    draws: Seq<usize>,
    k: int,
)
    requires
        0 <= k <= draws.len(),
        !(state_after(cfg, data, draws.take(k)) is Active),
    ensures
        state_after(cfg, data, draws) == state_after(cfg, data, draws.take(k)),
    decreases draws.len() - k,
{
    if k == draws.len() {
        assert(draws.take(k) =~= draws);
    } else {
        assert(draws.take(k + 1).drop_last() =~= draws.take(k));
        assert(draws.take(k + 1).last() == draws[k]);
        lemma_ended_stays_ended(cfg, data, draws, k + 1);
    }
}

/// Once a lifetime is ruined after `k` periods, its outcome is zero whatever
/// the later draws are.
pub proof fn lemma_ruin_is_final(cfg: SimulationConfig, data: &HistoricalReturns, draws: Seq<usize>, k: int)
    requires
        0 <= k <= draws.len(),
        state_after(cfg, data, draws.take(k)) == LifetimeState::Ruined,
    ensures
        lifetime_outcome(cfg, data, draws) == Ok::<i64, SimulationError>(0i64),
{
    lemma_ended_stays_ended(cfg, data, draws, k);
}

/// Replays the lifetime whose period `p` drew `draws[p - 1]`, and returns
/// its outcome: zero after ruin, else the value at the horizon. No period
/// after ruin is computed.
pub fn replay_lifetime(cfg: &SimulationConfig, data: &HistoricalReturns, draws: &Vec<usize>) -> (r: Result<
    i64,
    SimulationError,
>)
    requires
        cfg.wf(),
        data.wf(),
        draws@.len() == cfg.horizon,
        valid_draws(draws@, data.periods()),
    ensures
        r == lifetime_outcome(*cfg, data, draws@),
{
    let mut state = LifetimeState::Active(cfg.initial_capital);
    let mut k: u32 = 0;
    while k < cfg.horizon
        invariant
            cfg.wf(),
            data.wf(),
            draws@.len() == cfg.horizon,
            valid_draws(draws@, data.periods()),
            k <= cfg.horizon,
            state is Active,
            state == state_after(*cfg, data, draws@.take(k as int)),
        decreases cfg.horizon - k,
    {
        let index: usize = draws[k as usize];
        proof {
            assert(draws@.take(k + 1).drop_last() =~= draws@.take(k as int));
            assert(draws@.take(k + 1).last() == draws@[k as int]);
        }
        k = k + 1;
        state = advance_lifetime(cfg, data, state, k, index);
        match state {
            LifetimeState::Active(_) => {},
            _ => {
                proof {
                    lemma_ended_stays_ended(*cfg, data, draws@, k as int);
                }
                return report_outcome(state);
            },
        }
    }
    assert(draws@.take(k as int) =~= draws@);
    report_outcome(state)
}

/// Pads the draws of a lifetime that has ended up to `n` draws: the state
/// stays as it ended.
proof fn lemma_pad_ended(cfg: SimulationConfig, data: &HistoricalReturns, draws: Seq<usize>, n: nat) -> (padded:
    Seq<usize>)
    requires
        data.wf(),
        draws.len() <= n,
        valid_draws(draws, data.periods()),
        !(state_after(cfg, data, draws) is Active),
    ensures
        padded.len() == n,
        valid_draws(padded, data.periods()),
        state_after(cfg, data, padded) == state_after(cfg, data, draws),
    decreases n - draws.len(),
{
    if draws.len() == n {
        draws
    } else {
        let longer = draws.push(0usize);
        assert(longer.drop_last() =~= draws);
        lemma_pad_ended(cfg, data, longer, n)
    }
}

/// Simulates one lifetime in scalar mode. Each period draws one historical
/// period from `rng`, shared by both assets, applies its returns and the
/// period's cash flow, and checks for ruin; after ruin nothing more is drawn
/// or computed. The result is the outcome of a lifetime of `cfg.horizon`
/// valid draws: which draws, the generator decides.
pub fn simulate_investor_lifetime(cfg: &SimulationConfig, data: &HistoricalReturns, rng: &mut Resampler) -> (r:
    Result<i64, SimulationError>)
    requires
        cfg.wf(),
        data.wf(),
    ensures
        reachable_outcome(*cfg, data, r),
{
    let limit: usize = data.len();
    let mut state = LifetimeState::Active(cfg.initial_capital);
    let mut k: u32 = 0;
    let ghost mut drawn: Seq<usize> = Seq::empty();
    while k < cfg.horizon
        invariant
            cfg.wf(),
            data.wf(),
            limit == data.periods(),
            k <= cfg.horizon,
            drawn.len() == k,
            valid_draws(drawn, data.periods()),
            state is Active,
            state == state_after(*cfg, data, drawn),
        decreases cfg.horizon - k,
    {
        let year_index: usize = rng.draw_period_index(limit);
        proof {
            assert(drawn.push(year_index).drop_last() =~= drawn);
            drawn = drawn.push(year_index);
        }
        k = k + 1;
        state = advance_lifetime(cfg, data, state, k, year_index);
        match state {
            LifetimeState::Active(_) => {},
            _ => {
                proof {
                    let padded = lemma_pad_ended(*cfg, data, drawn, cfg.horizon as nat);
                    assert(lifetime_outcome(*cfg, data, padded) == outcome_of(state));
                }
                return report_outcome(state);
            },
        }
    }
    assert(lifetime_outcome(*cfg, data, drawn) == outcome_of(state));
    report_outcome(state)
}

/// The portfolio value after the periods `1..=draws.len()` when ruin ends
/// nothing: the value that trajectory mode shows.
pub open spec fn path_value(cfg: SimulationConfig, data: &HistoricalReturns, draws: Seq<usize>) -> int
    decreases draws.len(),
{
    if draws.len() == 0 {
        cfg.initial_capital as int
    } else {
        period_value(
            cfg,
            data,
            path_value(cfg, data, draws.drop_last()),
            draws.len() as int,
            draws.last() as int,
        )
    }
}

/// Every value on the path of `draws`, from period 0 to the last, fits in an
/// `i64`.
pub open spec fn path_in_range(cfg: SimulationConfig, data: &HistoricalReturns, draws: Seq<usize>) -> bool {
    forall|k: int| 0 <= k <= draws.len() ==> in_value_range(#[trigger] path_value(cfg, data, draws.take(k)))
}

/// `points` is the path of `draws`: one point per period from 0 to the last,
/// each holding its period and the value after it.
pub open spec fn is_trajectory(
    cfg: SimulationConfig,
    data: &HistoricalReturns,
    draws: Seq<usize>,
    points: Seq<(u32, i64)>,
) -> bool {
    &&& points.len() == draws.len() + 1
    &&& forall|k: int|
        0 <= k <= draws.len() ==> (#[trigger] points[k]).0 == k && points[k].1 == path_value(
            cfg,
            data,
            draws.take(k),
        )
}

/// While a lifetime is active its value is the value on the path: the two
/// modes differ only after ruin or once a value has left the range.
pub proof fn lemma_active_value_is_path_value(cfg: SimulationConfig, data: &HistoricalReturns, draws: Seq<usize>)
    requires
        state_after(cfg, data, draws) is Active,
    ensures
        state_after(cfg, data, draws)->Active_0 == path_value(cfg, data, draws),
        draws.len() > 0 ==> path_value(cfg, data, draws) > 0,
    decreases draws.len(),
{
    if draws.len() > 0 {
        lemma_active_value_is_path_value(cfg, data, draws.drop_last());
    }
}

/// Replays a lifetime in trajectory mode: the path of `draws`, starting with
/// the initial capital at period 0. Ruin does not end the path. Fails exactly
/// when a value on the path does not fit in an `i64`.
pub fn simulate_trajectory(cfg: &SimulationConfig, data: &HistoricalReturns, draws: &Vec<usize>) -> (r: Result<
    Vec<(u32, i64)>,
    SimulationError,
>)
    requires
        cfg.wf(),
        data.wf(),
        draws@.len() == cfg.horizon,
        valid_draws(draws@, data.periods()),
    ensures
        path_in_range(*cfg, data, draws@) ==> r is Ok && is_trajectory(*cfg, data, draws@, r->Ok_0@),
        !path_in_range(*cfg, data, draws@) ==> r == Err::<Vec<(u32, i64)>, SimulationError>(
            SimulationError::ValueOutOfRange,
        ),
{
    let mut points: Vec<(u32, i64)> = Vec::new();
    let mut value: i64 = cfg.initial_capital;
    points.push((0u32, value));
    let mut k: u32 = 0;
    while k < cfg.horizon
        invariant
            cfg.wf(),
            data.wf(),
            draws@.len() == cfg.horizon,
            valid_draws(draws@, data.periods()),
            k <= cfg.horizon,
            value == path_value(*cfg, data, draws@.take(k as int)),
            points@.len() == k + 1,
            forall|j: int|
                0 <= j <= k ==> (#[trigger] points@[j]).0 == j && points@[j].1 == path_value(
                    *cfg,
                    data,
                    draws@.take(j),
                ),
        decreases cfg.horizon - k,
    {
        let index: usize = draws[k as usize];
        proof {
            assert(draws@.take(k + 1).drop_last() =~= draws@.take(k as int));
            assert(draws@.take(k + 1).last() == draws@[k as int]);
        }
        k = k + 1;
        let grown: i128 = advance_wide(data.stocks[index], data.bonds[index], value, cfg.stock_weight, cfg.bond_weight);
        let cash: i128 = if k <= cfg.contribution_years {
            cfg.contribution as i128
        } else {
            -(cfg.withdrawal as i128)
        };
        let total: i128 = grown + cash;
        assert(total == path_value(*cfg, data, draws@.take(k as int)));
        if total < i64::MIN as i128 || total > i64::MAX as i128 {
            return Err(SimulationError::ValueOutOfRange);
        }
        value = total as i64;
        points.push((k, value));
    }
    assert forall|j: int| 0 <= j <= draws@.len() implies in_value_range(
        #[trigger] path_value(*cfg, data, draws@.take(j)),
    ) by {
        assert(points@[j].1 == path_value(*cfg, data, draws@.take(j)));
    }
    Ok(points)
}

/// Simulates one lifetime in trajectory mode: draws one historical period
/// per period of the horizon from `rng` and returns the path of those draws.
/// The draws themselves come back beside it.
pub fn simulate_investor_trajectory(cfg: &SimulationConfig, data: &HistoricalReturns, rng: &mut Resampler) -> (r: (
    Result<Vec<(u32, i64)>, SimulationError>,
    Vec<usize>,
))
    requires
        cfg.wf(),
        data.wf(),
    ensures
        r.1@.len() == cfg.horizon,
        valid_draws(r.1@, data.periods()),
        path_in_range(*cfg, data, r.1@) ==> r.0 is Ok && is_trajectory(*cfg, data, r.1@, r.0->Ok_0@),
        !path_in_range(*cfg, data, r.1@) ==> r.0 == Err::<Vec<(u32, i64)>, SimulationError>(
            SimulationError::ValueOutOfRange,
        ),
{
    let draws: Vec<usize> = rng.draw_indices(data.len(), cfg.horizon as usize);
    let path = simulate_trajectory(cfg, data, &draws);
    (path, draws)
}

/// The draws `a` from `data_a` and the draws `b` from `data_b` select the same
/// returns, period by period.
pub open spec fn same_sampled_returns(
    data_a: &HistoricalReturns,
    a: Seq<usize>,
    data_b: &HistoricalReturns,
    b: Seq<usize>,
) -> bool {
    &&& a.len() == b.len()
    &&& forall|i: int|
        0 <= i < a.len() ==> data_a.stocks@[#[trigger] a[i] as int] == data_b.stocks@[b[i] as int]
            && data_a.bonds@[a[i] as int] == data_b.bonds@[b[i] as int]
}

/// A lifetime is a function of its configuration and of the returns that its
/// draws select: two lifetimes that sample the same returns in the same
/// order stand in the same state, on the same path value, with the same
/// outcome.
pub proof fn lemma_same_samples_same_lifetime(
    cfg: SimulationConfig,
    data_a: &HistoricalReturns,
    a: Seq<usize>,
    data_b: &HistoricalReturns,
    b: Seq<usize>,
)
    requires
        same_sampled_returns(data_a, a, data_b, b),
    ensures
        state_after(cfg, data_a, a) == state_after(cfg, data_b, b),
        path_value(cfg, data_a, a) == path_value(cfg, data_b, b),
        lifetime_outcome(cfg, data_a, a) == lifetime_outcome(cfg, data_b, b),
    decreases a.len(),
{
    if a.len() > 0 {
        let n = a.len() - 1;
        assert forall|i: int| 0 <= i < a.drop_last().len() implies data_a.stocks@[#[trigger] a.drop_last()[i] as int]
            == data_b.stocks@[b.drop_last()[i] as int] && data_a.bonds@[a.drop_last()[i] as int]
            == data_b.bonds@[b.drop_last()[i] as int] by {
            assert(a.drop_last()[i] == a[i]);
            assert(b.drop_last()[i] == b[i]);
        }
        lemma_same_samples_same_lifetime(cfg, data_a, a.drop_last(), data_b, b.drop_last());
        assert(a.last() == a[n]);
        assert(b.last() == b[n]);
    }
}

/// A lifetime of at least one period never reports a negative value, and one
/// that starts with capital of zero or more never does either.
pub proof fn lemma_outcome_never_negative(cfg: SimulationConfig, data: &HistoricalReturns, draws: Seq<usize>)
    requires
        draws.len() > 0 || cfg.initial_capital >= 0,
        lifetime_outcome(cfg, data, draws) is Ok,
    ensures
        lifetime_outcome(cfg, data, draws)->Ok_0 >= 0,
{
}

} // verus!
