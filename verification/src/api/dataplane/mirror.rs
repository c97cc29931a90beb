use vstd::prelude::*;

verus! {

broadcast use vstd::string::group_string_axioms;

/// Default group selector for mirror rules: any group.
pub fn default_any() -> (r: String)
    ensures
        r@ == "any"@,
{
    "any".to_string()
}

/// Default protocol selector for mirror rules: any protocol.
pub fn default_any_proto() -> (r: String)
    ensures
        r@ == "any"@,
{
    "any".to_string()
}

#[derive(Debug, Clone)]
pub struct MirrorEntry {
    /// Source group name or `any`.
    pub src_group: String,
    /// Numeric identifier of the source group.
    pub src_group_id: u32,
    /// Destination group name or `any`.
    pub dst_group: String,
    /// Numeric identifier of the destination group.
    pub dst_group_id: u32,
    /// Matched L4 protocol name or protocol number.
    pub proto: String,
    /// Traffic direction: `ingress` or `egress`.
    pub direction: String,
    /// Interface name that receives mirrored packets.
    pub target_iface: String,
    /// Interface index resolved from the target interface name.
    pub target_ifindex: u32,
    /// Whether the rule applies globally across all groups.
    pub is_global: bool,
}

#[derive(Debug)]
pub struct MirrorListResponse {
    /// Configured mirror rules for the instance.
    pub rules: Vec<MirrorEntry>,
}

#[derive(Debug)]
pub struct AddMirrorRequest {
    /// Source group name or `any`.
    pub src_group: String,
    /// Destination group name or `any`.
    pub dst_group: String,
    /// Protocol name (`tcp`, `udp`, `icmp`, `any`) or protocol number.
    pub proto: String,
    /// Traffic direction: `ingress` or `egress`.
    pub direction: String,
    /// Target interface name that should receive mirrored packets.
    pub target: String,
}

#[derive(Debug)]
pub struct DeleteMirrorRequest {
    /// Source group name or `any`.
    pub src_group: String,
    /// Destination group name or `any`.
    pub dst_group: String,
    /// Protocol name (`tcp`, `udp`, `icmp`, `any`) or protocol number.
    pub proto: String,
    /// Traffic direction: `ingress` or `egress`.
    pub direction: String,
}

#[derive(Debug)]
pub struct MirrorStatsEntry {
    pub src_group: String,
    pub src_id: u32,
    pub dst_group: String,
    pub dst_id: u32,
    pub proto: String,
    pub direction: String,
    pub mirrored_packets: u64,
    pub mirrored_bytes: u64,
    pub errors: u64,
    pub is_global: bool,
}

#[derive(Debug)]
pub struct MirrorStatsResponse {
    pub rules: Vec<MirrorStatsEntry>,
}

#[derive(Debug, Clone)]
pub struct MirrorWithStatsEntry {
    pub src_group: String,
    pub src_group_id: u32,
    pub dst_group: String,
    pub dst_group_id: u32,
    pub proto: String,
    pub direction: String,
    pub target_iface: String,
    pub target_ifindex: u32,
    pub is_global: bool,
    pub mirrored_packets: u64,
    pub mirrored_bytes: u64,
    pub errors: u64,
}

#[derive(Debug)]
pub struct MirrorWithStatsResponse {
    pub rules: Vec<MirrorWithStatsEntry>,
}
} // verus!
