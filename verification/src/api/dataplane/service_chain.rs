use vstd::prelude::*;

verus! {

#[derive(Debug, Clone)]
pub struct TapBindingEntry {
    /// Tap interface name bound to the hop.
    pub tap: String,
    /// Logical role of the tap within the hop.
    pub role: String,
}

#[derive(Debug, Clone)]
pub struct ServiceHopEntry {
    /// Friendly hop name.
    pub name: String,
    /// Hop type such as `bridge` or `proxy`.
    pub hop_type: String,
    /// Tap bindings associated with the hop.
    pub taps: Vec<TapBindingEntry>,
}

#[derive(Debug, Clone)]
pub struct ServiceChainEntry {
    /// Stable service chain name.
    pub name: String,
    /// Optional operator-facing description.
    pub description: String,
    /// Ordered list of hops in the chain.
    pub hops: Vec<ServiceHopEntry>,
}

#[derive(Debug)]
pub struct DataplaneServiceChainListResponse {
    pub chains: Vec<ServiceChainEntry>,
}

#[derive(Debug)]
pub struct DataplaneCreateServiceChainRequest {
    /// Stable service chain name.
    pub name: String,
    /// Optional operator-facing description.
    pub description: String,
    /// Ordered list of hops in the chain.
    pub hops: Vec<ServiceHopEntry>,
}
} // verus!
