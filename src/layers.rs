//! Layers: accessors that wrap other accessors.

pub mod immutable_index;
pub mod logging;
pub mod metrics;
