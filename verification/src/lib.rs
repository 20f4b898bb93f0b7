//! Projection of jobsite events into a read model, with live fan-out.
//!
//! Domain events are read from an append-only log, decoded, applied to the
//! jobsite read model and announced to every connected session. A checkpoint
//! records how far the log has been consumed, so that a restart resumes
//! behind the last record that was applied.

pub mod application;
pub mod configuration;
pub mod events;
pub mod ids;
pub mod json;
pub mod projections;
pub mod routes;
pub mod stream;
pub mod utils;
