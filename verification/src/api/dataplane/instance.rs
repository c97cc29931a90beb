use vstd::prelude::*;

verus! {

#[derive(Debug)]
pub struct InstanceInfo {
    /// Managed instance or tap name.
    pub name: String,
    /// Whether the instance currently has active data plane programs attached.
    pub active: bool,
}

#[derive(Debug)]
pub struct InstancesResponse {
    /// All managed instances known to the agent.
    pub instances: Vec<InstanceInfo>,
}
} // verus!
