use vstd::prelude::*;

verus! {

broadcast use vstd::string::group_string_axioms;

/// Default number of port-bitmap policies for a standalone instance.
pub fn default_max_port_policies() -> (r: u32)
    ensures
        r == 16384,
{
    16384
}

#[derive(Debug)]
pub struct SystemStartRequest {
    /// Physical or virtual interface to manage as the standalone firewall instance.
    pub iface: String,
    /// Maximum number of port bitmap-backed policies to allocate for the instance.
    pub max_port_policies: u32,
}

#[derive(Debug)]
pub struct MessageResponse {
    /// Short operator-facing status message describing the completed action.
    pub message: String,
}

#[derive(Debug)]
pub struct ConfigResponse {
    /// Whether conntrack collection is enabled for the instance.
    pub conntrack: bool,
    /// Whether base monitoring counters are enabled.
    pub monitoring: bool,
    /// Whether ACL enforcement is enabled.
    pub acl: bool,
    /// Whether QoS enforcement is enabled.
    pub qos: bool,
    /// Whether mirror rule evaluation is enabled.
    pub mirror: bool,
    /// Whether TCP-RT observability is enabled.
    pub tcprt: bool,
    /// Whether SSL observability is enabled for the instance.
    pub ssl: bool,
    /// Number of CPUs provisioned for per-CPU maps.
    pub num_cpus: u16,
}

#[derive(Debug)]
pub struct UpdateConfigRequest {
    /// Toggle conntrack collection.
    pub conntrack: Option<bool>,
    /// Toggle base monitoring counters.
    pub monitoring: Option<bool>,
    /// Toggle ACL enforcement.
    pub acl: Option<bool>,
    /// Toggle QoS enforcement.
    pub qos: Option<bool>,
    /// Toggle mirror rule evaluation.
    pub mirror: Option<bool>,
    /// Toggle TCP-RT observability.
    pub tcprt: Option<bool>,
    /// Toggle SSL observability for the instance.
    pub ssl: Option<bool>,
}
} // verus!
