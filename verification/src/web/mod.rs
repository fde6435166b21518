//! Web-layer building blocks.

pub mod middleware;
