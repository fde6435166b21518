//! Obligation tracking.

pub mod ledger;
