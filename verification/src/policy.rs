//! Runtime-owned catalog generations and replayable policy admission state.

pub mod activity;
pub mod cadence;
pub mod catalog;
pub mod catalog_change;
pub mod catalog_source;
pub mod control;
pub mod cost;
pub mod detection;
pub mod dispatch;
pub mod evaluation;
pub mod execution;
pub mod generation;
pub mod host;
pub mod outcome;
pub mod planner;
pub mod pointer_migration;
pub mod recovery;
pub mod signals;
pub mod tracking;
