//! Randomised issuing of a fixed pool of numbered items under a phased sale.
//!
//! - `raffle`: the pool of ids not yet issued, drawn from without repeats.
//! - `allowance` and `whitelist`: how many items each account may mint.
//! - `sale`: the terms of the sale, its phase at a given time, and prices.
//! - `payout`: exact splits of an amount among payees by share.
//! - `contract`: the state of a sale and its entry points: mints, deferred
//!   mints that wait on an outside step, and administration.
pub mod allowance;
pub mod contract;
pub mod payout;
pub mod raffle;
pub mod sale;
pub mod whitelist;
