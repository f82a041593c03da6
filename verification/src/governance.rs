//! Audit events and the change records of the control plane.
pub mod audit;
pub mod change_plan;
pub mod config_snapshot;
pub mod release_record;
