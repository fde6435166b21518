use vstd::prelude::*;

pub mod text;
pub mod types;
pub mod text_map;
pub mod order;
pub mod error;
pub mod remote;
pub mod compat;
pub mod http;
pub mod lab;
pub mod messaging;
pub mod web;
pub mod net;
pub mod record;
pub mod obligation;

verus! {

} // verus!
