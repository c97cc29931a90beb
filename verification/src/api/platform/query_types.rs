use vstd::prelude::*;

verus! {

#[derive(Debug, Clone, Default)]
pub struct TenantListQuery {
    pub limit: Option<usize>,
    pub page_token: Option<String>,
    pub label_selector: Option<String>,
    pub status: Option<String>,
}

#[derive(Debug, Clone, Default)]
pub struct NodeListQuery {
    pub limit: Option<usize>,
    pub page_token: Option<String>,
    pub label_selector: Option<String>,
    pub status: Option<String>,
    pub sync_state: Option<String>,
}

#[derive(Debug, Clone, Default)]
pub struct NetworkListQuery {
    pub limit: Option<usize>,
    pub page_token: Option<String>,
    pub label_selector: Option<String>,
    pub tenant_id: Option<String>,
    pub status: Option<String>,
}

#[derive(Debug, Clone, Default)]
pub struct PortListQuery {
    pub limit: Option<usize>,
    pub page_token: Option<String>,
    pub label_selector: Option<String>,
    pub tenant_id: Option<String>,
    pub network_id: Option<String>,
    pub node_id: Option<String>,
    pub status: Option<String>,
}

#[derive(Debug, Clone, Default)]
pub struct SecurityGroupListQuery {
    pub limit: Option<usize>,
    pub page_token: Option<String>,
    pub label_selector: Option<String>,
    pub tenant_id: Option<String>,
    pub status: Option<String>,
}

#[derive(Debug, Clone, Default)]
pub struct RouteTableListQuery {
    pub limit: Option<usize>,
    pub page_token: Option<String>,
    pub label_selector: Option<String>,
    pub network_id: Option<String>,
    pub status: Option<String>,
}

#[derive(Debug, Clone, Default)]
pub struct HealthCheckListQuery {
    pub limit: Option<usize>,
    pub page_token: Option<String>,
    pub label_selector: Option<String>,
    pub tenant_id: Option<String>,
    pub network_id: Option<String>,
    pub protocol: Option<String>,
    pub status: Option<String>,
}

#[derive(Debug, Clone, Default)]
pub struct BackendSetListQuery {
    pub limit: Option<usize>,
    pub page_token: Option<String>,
    pub label_selector: Option<String>,
    pub tenant_id: Option<String>,
    pub network_id: Option<String>,
    pub health_check_id: Option<String>,
    pub status: Option<String>,
}

#[derive(Debug, Clone, Default)]
pub struct ServiceListQuery {
    pub limit: Option<usize>,
    pub page_token: Option<String>,
    pub label_selector: Option<String>,
    pub tenant_id: Option<String>,
    pub network_id: Option<String>,
    pub backend_set_id: Option<String>,
    pub exposure_type: Option<String>,
    pub status: Option<String>,
}

#[derive(Debug, Clone, Default)]
pub struct IpGroupListQuery {
    pub limit: Option<usize>,
    pub page_token: Option<String>,
    pub label_selector: Option<String>,
    pub tenant_id: Option<String>,
    pub network_id: Option<String>,
    pub status: Option<String>,
}

#[derive(Debug, Clone, Default)]
pub struct NetworkPolicyListQuery {
    pub limit: Option<usize>,
    pub page_token: Option<String>,
    pub label_selector: Option<String>,
    pub tenant_id: Option<String>,
    pub network_id: Option<String>,
    pub action: Option<String>,
    pub status: Option<String>,
}

#[derive(Debug, Clone, Default)]
pub struct QosPolicyListQuery {
    pub limit: Option<usize>,
    pub page_token: Option<String>,
    pub label_selector: Option<String>,
    pub tenant_id: Option<String>,
    pub network_id: Option<String>,
    pub status: Option<String>,
}

#[derive(Debug, Clone, Default)]
pub struct MirrorPolicyListQuery {
    pub limit: Option<usize>,
    pub page_token: Option<String>,
    pub label_selector: Option<String>,
    pub tenant_id: Option<String>,
    pub network_id: Option<String>,
    pub status: Option<String>,
}
} // verus!
