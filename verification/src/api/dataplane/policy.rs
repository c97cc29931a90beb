use vstd::prelude::*;

verus! {

broadcast use vstd::string::group_string_axioms;

/// Default traffic direction of a policy: ingress.
pub fn default_direction() -> (r: String)
    ensures
        r@ == "ingress"@,
{
    "ingress".to_string()
}

#[derive(Debug, Clone)]
pub struct PolicyEntry {
    /// Source group name or `any`.
    pub src_group: String,
    /// Numeric identifier of the source group.
    pub src_group_id: u32,
    /// Destination group name or `any`.
    pub dst_group: String,
    /// Numeric identifier of the destination group.
    pub dst_group_id: u32,
    /// Matched L4 protocol name or protocol number.
    pub proto: String,
    /// Rule action, typically `allow` or `drop`.
    pub action: String,
    /// Traffic direction: `ingress` or `egress`.
    pub direction: String,
    /// Optional port filter expression.
    pub ports: Option<String>,
    /// Optional bitmap index used for expanded port matching.
    pub bitmap_idx: Option<u32>,
}

#[derive(Debug)]
pub struct PoliciesResponse {
    /// Configured policies for the instance.
    pub policies: Vec<PolicyEntry>,
}

#[derive(Debug)]
pub struct AddPolicyRequest {
    /// Source group name or `any`.
    pub src_group: String,
    /// Destination group name or `any`.
    pub dst_group: String,
    /// Protocol name (`tcp`, `udp`, `icmp`, `any`) or protocol number.
    pub proto: String,
    /// Action to apply when the rule matches.
    pub action: String,
    /// Traffic direction: `ingress`, `egress`, or `both`.
    pub direction: String,
    /// Optional port filter expression such as `80,443`, `1000-2000`, or `all`.
    pub ports: Option<String>,
}

#[derive(Debug)]
pub struct DeletePolicyRequest {
    /// Source group name or `any`.
    pub src_group: String,
    /// Destination group name or `any`.
    pub dst_group: String,
    /// Protocol name (`tcp`, `udp`, `icmp`, `any`) or protocol number.
    pub proto: String,
    /// Traffic direction: `ingress`, `egress`, or `both`.
    pub direction: String,
}

#[derive(Debug)]
pub struct BatchAddPoliciesRequest {
    /// Policies to create in order.
    pub policies: Vec<AddPolicyRequest>,
}

#[derive(Debug)]
pub struct BatchPoliciesResponse {
    /// Number of policies successfully added.
    pub added: usize,
    /// Validation or apply errors for entries that could not be created.
    pub errors: Vec<String>,
}

#[derive(Debug, Clone)]
pub struct PolicyWithStatsEntry {
    /// Source group name or `any`.
    pub src_group: String,
    /// Numeric identifier of the source group.
    pub src_group_id: u32,
    /// Destination group name or `any`.
    pub dst_group: String,
    /// Numeric identifier of the destination group.
    pub dst_group_id: u32,
    /// Matched L4 protocol name or protocol number.
    pub proto: String,
    /// Rule action, typically `allow` or `drop`.
    pub action: String,
    /// Traffic direction: `ingress` or `egress`.
    pub direction: String,
    /// Optional port filter expression.
    pub ports: Option<String>,
    /// Optional bitmap index used for expanded port matching.
    pub bitmap_idx: Option<u32>,
    /// Total packets matched by the rule.
    pub packets: u64,
    /// Total bytes matched by the rule.
    pub bytes: u64,
    /// Total packets dropped by the rule.
    pub dropped_packets: u64,
    /// Total bytes dropped by the rule.
    pub dropped_bytes: u64,
}

#[derive(Debug)]
pub struct PoliciesWithStatsResponse {
    /// Policies enriched with aggregated hit and drop counters.
    pub policies: Vec<PolicyWithStatsEntry>,
}
} // verus!
