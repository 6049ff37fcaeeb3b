//! Monte Carlo simulation of a two-asset portfolio over a long horizon.
//!
//! Money is held as whole minor units in `i64`; returns and asset weights are
//! held in parts per million. Every period a historical period is drawn at
//! random, the blended return of that period is applied to the portfolio, the
//! period's cash flow is added, and the portfolio is checked for ruin.

pub mod config;
pub mod evolution;
pub mod resampler;
pub mod lifetime;
pub mod montecarlo;
pub mod loader;
