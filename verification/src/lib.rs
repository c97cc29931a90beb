//! Verified core of the Aria node agent: desired-state planning, runtime
//! inventory bookkeeping, backend health tracking and the wire-level codes
//! shared with the HTTP API.

pub mod text;
pub mod api;
pub mod health;
pub mod order;
pub mod strset;
pub mod agent;
pub mod control;
