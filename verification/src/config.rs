//! Configuration and historical data, validated once when they are built.

use vstd::prelude::*;

verus! {

/// One whole, in parts per million: the unit of returns and of asset weights.
pub const RATE_SCALE: u32 = 1_000_000;

/// Why a run was refused or abandoned.
#[derive(Clone, Copy, Debug, PartialEq, Eq, Structural)]
pub enum SimulationError {
    /// The stock weight and the bond weight do not add up to one whole.
    WeightsNotUnit,
    /// The two return series differ in length.
    SeriesLengthMismatch,
    /// The return series hold no period to draw from.
    EmptySeries,
    /// A success rate was asked of zero simulations.
    ZeroSimulations,
    /// A portfolio value left the range of `i64`.
    ValueOutOfRange,
    /// The line with this index, counted from zero, is no decimal number, or
    /// its rate is out of range.
    InvalidEntry(usize),
}

impl SimulationError {
    /// True of the errors of the configuration: the weights, the lengths of
    /// the series, the number of simulations.
    pub fn is_configuration_error(&self) -> (b: bool)
        ensures
            b == (*self == SimulationError::WeightsNotUnit || *self == SimulationError::SeriesLengthMismatch
                || *self == SimulationError::EmptySeries || *self == SimulationError::ZeroSimulations),
    {
        match self {
            SimulationError::WeightsNotUnit => true,
            SimulationError::SeriesLengthMismatch => true,
            SimulationError::EmptySeries => true,
            SimulationError::ZeroSimulations => true,
            SimulationError::ValueOutOfRange => false,
            SimulationError::InvalidEntry(_) => false,
        }
    }

    /// A message that names the failing input.
    pub fn message(&self) -> (text: &'static str)
        ensures
            text@ == Self::message_of(*self),
    {
        match self {
            SimulationError::WeightsNotUnit => "configuration error: stock and bond weights must sum to 1.0",
            SimulationError::SeriesLengthMismatch => "configuration error: return series differ in length",
            SimulationError::EmptySeries => "configuration error: return series are empty",
            SimulationError::ZeroSimulations => "configuration error: simulation count is zero",
            SimulationError::ValueOutOfRange => "portfolio value out of range",
            SimulationError::InvalidEntry(_) => "input error: a line of a return series is not a valid number",
        }
    }

    /// The text of `message`, by variant.
    pub open spec fn message_of(e: SimulationError) -> Seq<char> {
        match e {
            SimulationError::WeightsNotUnit => "configuration error: stock and bond weights must sum to 1.0"@,
            SimulationError::SeriesLengthMismatch => "configuration error: return series differ in length"@,
            SimulationError::EmptySeries => "configuration error: return series are empty"@,
            SimulationError::ZeroSimulations => "configuration error: simulation count is zero"@,
            SimulationError::ValueOutOfRange => "portfolio value out of range"@,
            SimulationError::InvalidEntry(_) => "input error: a line of a return series is not a valid number"@,
        }
    }
}

/// The tunable parameters of a simulation.
///
/// Periods are numbered from 1. Period `p` adds `contribution` when
/// `p <= contribution_years` and takes `withdrawal` away otherwise. Period 0
/// is the starting point, at which the portfolio holds `initial_capital`.
#[derive(Clone, Copy, Debug, PartialEq, Eq, Structural)]
pub struct SimulationConfig {
    /// Portfolio value before the first period, in minor units.
    pub initial_capital: i64,
    /// Amount added at the end of each contribution period.
    pub contribution: i64,
    /// Amount taken out at the end of each later period.
    pub withdrawal: i64,
    /// Number of leading periods in which cash is added.
    pub contribution_years: u32,
    /// Number of periods in a lifetime.
    pub horizon: u32,
    /// Share of the portfolio held in stocks, in parts per million.
    pub stock_weight: u32,
    /// Share of the portfolio held in bonds, in parts per million.
    pub bond_weight: u32,
    /// Number of lifetimes that a Monte Carlo run simulates.
    pub simulation_count: u32,
}

impl SimulationConfig {
    /// The weights add up to one whole.
    pub open spec fn wf(&self) -> bool {
        self.stock_weight + self.bond_weight == RATE_SCALE
    }

    /// Builds a configuration, refusing weights that do not sum to one whole.
    pub fn new(
        initial_capital: i64,
        contribution: i64,
        withdrawal: i64,
        contribution_years: u32,
        horizon: u32,
        stock_weight: u32,
        bond_weight: u32,
        simulation_count: u32,
    ) -> (r: Result<SimulationConfig, SimulationError>)
        ensures
            stock_weight + bond_weight == RATE_SCALE ==> r == Ok::<SimulationConfig, SimulationError>(
                (SimulationConfig {
                    initial_capital,
                    contribution,
                    withdrawal,
                    contribution_years,
                    horizon,
                    stock_weight,
                    bond_weight,
                    simulation_count,
                }),
            ),
            stock_weight + bond_weight != RATE_SCALE ==> r == Err::<SimulationConfig, SimulationError>(
                SimulationError::WeightsNotUnit,
            ),
            r is Ok ==> r->Ok_0.wf(),
    {
        let total: u64 = stock_weight as u64 + bond_weight as u64;
        if total != RATE_SCALE as u64 {
            return Err(SimulationError::WeightsNotUnit);
        }
        Ok(
            SimulationConfig {
                initial_capital,
                contribution,
                withdrawal,
                contribution_years,
                horizon,
                stock_weight,
                bond_weight,
                simulation_count,
            },
        )
    }

    /// The cash that period `period` adds to the portfolio: the contribution
    /// in the contribution phase, the withdrawal, negated, after it.
    pub open spec fn cash_flow(&self, period: int) -> int {
        if period <= self.contribution_years {
            self.contribution as int
        } else {
            -(self.withdrawal as int)
        }
    }
}

/// The historical returns of both asset classes, one entry per period, in
/// parts per million. Entry `i` of both series belongs to the same period.
#[derive(Debug)]
pub struct HistoricalReturns {
    /// Stock returns by historical period.
    pub stocks: Vec<i32>,
    /// Bond returns by historical period.
    pub bonds: Vec<i32>,
}

impl HistoricalReturns {
    /// Both series have the same length, and it is not zero.
    pub open spec fn wf(&self) -> bool {
        self.stocks@.len() == self.bonds@.len() && self.stocks@.len() > 0
    }

    /// The number of historical periods: the size of the sample space.
    pub open spec fn periods(&self) -> nat {
        self.stocks@.len()
    }

    /// Pairs two series, refusing series of unequal length and empty ones.
    pub fn new(stocks: Vec<i32>, bonds: Vec<i32>) -> (r: Result<HistoricalReturns, SimulationError>)
        ensures
            stocks@.len() != bonds@.len() ==> r == Err::<HistoricalReturns, SimulationError>(
                SimulationError::SeriesLengthMismatch,
            ),
            stocks@.len() == bonds@.len() && stocks@.len() == 0 ==> r == Err::<
                HistoricalReturns,
                SimulationError,
            >(SimulationError::EmptySeries),
            stocks@.len() == bonds@.len() && stocks@.len() > 0 ==> r is Ok && r->Ok_0.stocks == stocks
                && r->Ok_0.bonds == bonds && r->Ok_0.wf(),
    {
        if stocks.len() != bonds.len() {
            return Err(SimulationError::SeriesLengthMismatch);
        }
        if stocks.len() == 0 {
            return Err(SimulationError::EmptySeries);
        }
        Ok(HistoricalReturns { stocks, bonds })
    }

    /// The size of the sample space.
    pub fn len(&self) -> (n: usize)
        ensures
            n == self.periods(),
    {
        self.stocks.len()
    }
}

} // verus!
