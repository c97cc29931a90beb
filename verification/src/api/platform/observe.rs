use vstd::prelude::*;
use crate::api::platform::event::EventEnvelope;

verus! {

#[derive(Debug, Clone, Default)]
pub struct ObserveQuery {
    /// Optional event type filter such as `flow`, `tcprt`, `ssl`, `http`, `drop`, `kernel_drop`, or `lb`.
    pub event_type: Option<String>,
    /// Optional instance ID filter for events tied to a managed tap instance.
    pub instance_id: Option<String>,
    /// Optional service ID filter for service/LB related events.
    pub service_id: Option<String>,
    /// Optional source IP filter.
    pub src_ip: Option<String>,
    /// Optional destination IP filter.
    pub dst_ip: Option<String>,
    /// Optional destination port filter.
    pub dst_port: Option<u16>,
    /// Optional L4 protocol filter such as `tcp`, `udp`, or `icmp`.
    pub protocol: Option<String>,
    /// Optional relative lookback window in seconds. Events without a timestamp are excluded when set.
    pub time_range: Option<u64>,
    /// Maximum number of events to return after filtering and sorting.
    pub limit: Option<usize>,
}

/// The events that matched an observe query, newest first.
#[derive(Debug)]
pub struct ObserveResponse {
    pub events: Vec<EventEnvelope>,
}
} // verus!
