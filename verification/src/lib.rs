//! Driver core for a multi-pass document-typesetting engine.
//!
//! The crate models the resource-resolution chain (content providers and a
//! locally cached bundle), the prioritized I/O stack the engine reads and
//! writes through, the status-reporting backends, and the session
//! orchestrator that sequences engine passes until the run converges.

pub mod bytes;
pub mod config;
pub mod driver;
pub mod engine;
pub mod errors;
pub mod iostack;
pub mod provider;
pub mod status;
pub mod stringpool;
