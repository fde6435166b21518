//! Capability placeholders: routing policies and publish permits.

pub mod routing;
pub mod tokens;
