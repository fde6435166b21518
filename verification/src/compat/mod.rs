//! Adapter types bridging the runtime's I/O and executor surfaces to
//! hyper/Tokio-style consumers.

pub mod hyper_bridge;
pub mod io;
