use vstd::prelude::*;

verus! {

#[derive(Debug)]
pub struct TraceStartRequest {
    /// Source IP filter; empty string matches any source.
    pub src_ip: String,
    /// Destination IP filter; empty string matches any destination.
    pub dst_ip: String,
    /// Source port filter; `0` matches any source port.
    pub src_port: u16,
    /// Destination port filter; `0` matches any destination port.
    pub dst_port: u16,
    /// Protocol filter such as `tcp`, `udp`, or empty string for any protocol.
    pub proto: String,
}

#[derive(Debug, Clone)]
pub struct TraceEventEntry {
    pub seq: u64,
    pub timestamp: u64,
    pub src_ip: String,
    pub dst_ip: String,
    pub src_port: u16,
    pub dst_port: u16,
    pub proto: String,
    pub hook: String,
    pub result: String,
    pub direction: String,
    pub src_group: String,
    pub src_id: u32,
    pub dst_group: String,
    pub dst_id: u32,
    pub pkt_len: u32,
    pub ct_state: String,
    pub drop_reason: String,
}

#[derive(Debug)]
pub struct TraceResponse {
    pub events: Vec<TraceEventEntry>,
}

#[derive(Debug)]
pub struct TraceFlushResponse {
    pub flushed: u64,
}
} // verus!
