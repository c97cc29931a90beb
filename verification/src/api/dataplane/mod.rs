//! Dataplane (per-instance firewall) request and response types.

pub mod config;
pub mod conntrack;
pub mod drops;
pub mod group;
pub mod instance;
pub mod mirror;
pub mod policy;
pub mod qos;
pub mod service_chain;
pub mod ssl;
pub mod stats;
pub mod tcprt;
pub mod trace;
