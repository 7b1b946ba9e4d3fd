//! Bounded Runtime performance monitoring and failure-context projection.

pub mod capacity;
pub mod capacity_monitor;
pub mod capacity_round;
pub mod config;
pub mod context;
pub mod evidence;
pub mod ingest;
pub mod measure;
pub mod monitor;
pub mod pipeline;
pub mod pressure;
pub mod sample;
pub mod signal;
