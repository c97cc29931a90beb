use vstd::prelude::*;
use crate::api::platform::metadata::{ResourceCreateMetadata, ResourceUpdateMetadata};
use crate::api::platform::metadata::ResourceMetadata;

verus! {

#[derive(Debug, Clone)]
pub struct SecurityRuleSpec {
    /// Rule direction such as `ingress` or `egress`.
    pub direction: String,
    /// EtherType family such as `ipv4` or `ipv6`.
    pub ethertype: String,
    /// Optional source selector.
    pub src_selector: Option<String>,
    /// Optional destination selector.
    pub dst_selector: Option<String>,
    /// Optional protocol selector.
    pub protocol: Option<String>,
    /// Optional port range expression.
    pub port_range: Option<String>,
    /// Rule action.
    pub action: String,
    /// Lower values are evaluated first.
    pub priority: u32,
    /// Whether matching should emit an explicit policy log.
    pub log_enabled: bool,
    /// Whether the rule runs in audit-only mode.
    pub audit_mode: bool,
}

#[derive(Debug, Clone)]
pub struct SecurityGroupSpec {
    /// Owning tenant identifier.
    pub tenant_id: String,
    /// Human-readable security group name.
    pub name: String,
    /// Optional description.
    pub description: Option<String>,
    /// Ordered security rules.
    pub rules: Vec<SecurityRuleSpec>,
}

#[derive(Debug, Clone)]
pub struct SecurityGroupStatus {
    /// Lifecycle phase as observed by the platform.
    pub phase: String,
    /// Materialized rule count.
    pub rule_count: usize,
}

#[derive(Debug, Clone)]
pub struct SecurityGroupResource {
    pub metadata: ResourceMetadata,
    pub spec: SecurityGroupSpec,
    pub status: SecurityGroupStatus,
}

#[derive(Debug, Clone)]
pub struct SecurityGroupListResponse {
    pub items: Vec<SecurityGroupResource>,
    pub next_page_token: Option<String>,
    pub total_count: usize,
}

#[derive(Debug, Clone)]
pub struct CreateSecurityGroupRequest {
    pub metadata: Option<ResourceCreateMetadata>,
    pub spec: SecurityGroupSpec,
}

#[derive(Debug, Clone)]
pub struct UpdateSecurityGroupRequest {
    pub metadata: Option<ResourceUpdateMetadata>,
    pub spec: SecurityGroupSpec,
}
} // verus!
