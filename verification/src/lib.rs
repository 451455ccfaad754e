//! Verified core of the canister fleet tooling: principals and controller
//! lists, cycle-return and decommission decisions, the controlled-canister
//! registry, subnet signup bookkeeping and the snapshot/harvest runners'
//! decision logic.
pub mod canister_list;
pub mod controllers;
pub mod cycles;
pub mod decommission;
pub mod harvest;
pub mod harvest_run;
pub mod orchestrator;
pub mod principal;
pub mod provision;
pub mod registry;
pub mod snapshot;
pub mod sns;
pub mod text;
pub mod test_constants;
pub mod types;
pub mod upgrade;
pub mod user_index;
