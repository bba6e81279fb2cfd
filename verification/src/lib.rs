//! Margin-risk engine for a leveraged trading account backed by a pool of
//! collateral assets and a set of perpetual-futures positions.
//!
//! Given a point-in-time snapshot of an account's balances, open positions and
//! market data, the engine computes the account's collateral value, decides
//! whether it satisfies an Initial / Maintenance / Cancel margin requirement,
//! ranks markets by resting-order exposure, and estimates how large a
//! reduction in a given asset brings a failing account back above its
//! initial-margin requirement.
//!
//! All monetary quantities are integers in a fixed micro-unit scale: one whole
//! unit is `math::UNIT` micro-units. Every arithmetic step is checked; any
//! overflow aborts the whole computation with `ErrorCode::Overflow`.

pub mod data;
pub mod error;
pub mod fraction;
pub mod keys;
pub mod liquidation;
pub mod math;
pub mod orders;
pub mod perp;
pub mod spot;
pub mod valuation;
