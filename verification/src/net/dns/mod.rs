//! DNS resolution support.

pub mod cache;
