//! Observation of Landlock: semantic events, reconstructed state and denial
//! aggregation.
pub mod aggregate;
pub mod event;
pub mod lltop;
pub mod state;
