//! Observability events.
use vstd::prelude::*;

verus! {

/// One observed event, in the shape every event source shares.
#[derive(Debug)]
pub struct EventEnvelope {
    pub event_id: String,
    /// Kind of event: `tcprt`, `flow`, `drop`, `lb`, `ssl`, `http` or `kernel_drop`.
    pub event_type: String,
    /// Unix or monotonic timestamp in decimal; `0` when unknown.
    pub timestamp: String,
    pub node_id: String,
    pub direction: String,
    pub verdict: String,
    pub hook: String,
    pub tenant_id: Option<String>,
    pub network_id: Option<String>,
    pub port_id: Option<String>,
    pub instance_id: Option<String>,
    pub flow_id: Option<String>,
    pub service_id: Option<String>,
    pub trace_id: Option<String>,
    pub src_ip: Option<String>,
    pub dst_ip: Option<String>,
    pub src_port: Option<u16>,
    pub dst_port: Option<u16>,
    pub protocol: Option<String>,
    /// Source-specific details.
    pub payload: serde_json::Value,
}

} // verus!
