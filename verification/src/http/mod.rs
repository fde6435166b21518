//! HTTP protocol types.

pub mod h1;
