//! The decision core of a local automation runtime host.
//!
//! Every rule the host applies between two pieces of input or output lives
//! here as a verified function: what is admitted, what is refused and with
//! which code, and what the next state is.

pub mod error;
pub mod ipc;
pub mod ids;
pub mod text;
pub mod artifact_recognition;
pub mod close_course;
pub mod owner;
pub mod owner_unlock;
pub mod ledger_maintenance;
pub mod maintenance_run;
pub mod ordered_map;
pub mod period;
pub mod runtime_facts;
pub mod fact_producers;
pub mod fact_recovery;
pub mod fact_write;
pub mod saved_artifact;
pub mod settlement_course;
pub mod signatures;
pub mod startup_package;
pub mod release_state;
pub mod release_course;
pub mod resource_close;
pub mod task_timing;
pub mod task_diagnostic;
pub mod diagnostic_plan;
pub mod performance_control;
pub mod performance;
pub mod digest;
pub mod search;
pub mod json;
pub mod json_text;
pub mod json_value;
pub mod lines;
pub mod monitor;
pub mod planning;
pub mod policy;
pub mod procedure_manifest;
pub mod project_interface;
pub mod proposal;
