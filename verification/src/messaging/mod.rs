//! Messaging fabric: subject language, service contracts and placement
//! policy.

pub mod capability;
pub mod class;
pub mod consumer;
pub mod control;
pub mod cut;
pub mod explain;
pub mod fabric;
pub mod federation;
pub mod ir;
pub mod morphism;
pub mod policy;
pub mod privacy;
pub mod service;
pub mod session;
pub mod snapshot;
pub mod stream;
pub mod subject;
