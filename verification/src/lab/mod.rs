//! Deterministic lab runtime support: configuration, seed derivation, run
//! reports, fuzz findings, and lab-vs-live differential scenarios.

pub mod config;
pub mod dual_run;
pub mod fuzz;
pub mod runtime;
pub mod seed;
