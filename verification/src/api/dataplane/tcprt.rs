use vstd::prelude::*;

verus! {

#[derive(Debug)]
pub struct TcpRtFlushResponse {
    pub flushed: u64,
}

#[derive(Debug)]
pub struct TcpRtQueryTuple {
    /// Client or source IP address.
    pub src_ip: String,
    /// Server or destination IP address.
    pub dst_ip: String,
    /// Client or source port.
    pub src_port: u16,
    /// Server or destination port.
    pub dst_port: u16,
}

#[derive(Debug)]
pub struct TcpRtBatchQueryRequest {
    /// Tuples to query across all managed instances.
    pub tuples: Vec<TcpRtQueryTuple>,
}

#[derive(Debug)]
pub struct TcpRtFilterRequest {
    /// Service IP address to aggregate by.
    pub dst_ip: String,
    /// Service port to aggregate by.
    pub dst_port: u16,
}

#[derive(Debug)]
pub struct TcpRtStateCount {
    pub state: String,
    pub count: u64,
}

#[derive(Debug)]
pub struct TcpRtStatesResponse {
    pub states: Vec<TcpRtStateCount>,
    pub total_flows: u64,
    pub anomalies: Vec<String>,
}
} // verus!
