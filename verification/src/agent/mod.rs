//! The node agent's planning pipeline.

pub mod ir;
pub mod counters;
pub mod helpers;
pub mod planner;
pub mod runtime_plan;
pub mod inventory;
pub mod keyed;
pub mod inventory_diff;
pub mod runtime_intent;
pub mod socket_plan;
pub mod ir_builders;
pub mod service_programs;
pub mod capability;
pub mod state_store;
pub mod service_maps;
pub mod cycle;
pub mod port_admission;
pub mod object_compile;
pub mod policy_compile;
