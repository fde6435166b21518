//! Networking building blocks.

pub mod dns;
