//! Verified core of a Soroban cost-budgeting toolkit.
pub mod arith;
pub mod pool;
pub mod pool_laws;
pub mod bench;
pub mod text;
pub mod format;
pub mod report;
pub mod rpc;
pub mod budget_attr;
pub mod budget_plan;
pub mod exit_paths;
pub mod config_scan;
pub mod limits;
pub mod workflow;
pub mod output;
