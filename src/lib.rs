//! Sampling of a live trade stream: per-client price averages over a bounded
//! time window, and a combined figure over several concurrently run clients.
//!
//! Prices are fixed-point integers counted in price units (see
//! [`model::PRICE_UNITS_PER_WHOLE`]); averages are rounded down to a whole unit.

pub mod aggregator;
pub mod files;
pub mod model;
pub mod orchestrator;
pub mod protocol;
pub mod stream;
