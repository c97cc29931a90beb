//! Service programs: each compiled service joined with its desired service,
//! backend set, health check and network.
use vstd::prelude::*;
use crate::agent::ir::{
    BackendMemberIr, BackendSetIr, CompiledBackendSetView, CompiledHealthCheckView, CompiledServiceView,
    HealthCheckIr, ServiceFrontendIr, ServiceFrontendPortIr, ServiceProgramIr,
};
use crate::agent::ir_builders::{
    build_backend_member_ir, default_service_route_mode, derive_service_forwarding_mode, forwarding_mode_for,
    member_for,
};
use crate::api::platform::backend_set::BackendSetResource;
use crate::api::southbound::DesiredStateEnvelope;
use crate::api::platform::health_check::HealthCheckResource;
use crate::api::platform::network::NetworkResource;
use crate::api::platform::port::PortResource;
use crate::api::platform::service::{ServicePortSpec, ServiceResource};
use crate::text::{clone_opt, opt_view, str_eq};

verus! {

broadcast use vstd::string::group_string_axioms;

/// The last network filed under `id`.
pub open spec fn network_by_id(v: Seq<NetworkResource>, id: Seq<char>) -> Option<NetworkResource>
    decreases v.len(),
{
    if v.len() == 0 {
        None
    } else if v.last().metadata.id@ == id {
        Some(v.last())
    } else {
        network_by_id(v.drop_last(), id)
    }
}

/// The last health check filed under `id`.
pub open spec fn health_check_by_id(v: Seq<HealthCheckResource>, id: Seq<char>) -> Option<HealthCheckResource>
    decreases v.len(),
{
    if v.len() == 0 {
        None
    } else if v.last().metadata.id@ == id {
        Some(v.last())
    } else {
        health_check_by_id(v.drop_last(), id)
    }
}

/// The last backend set filed under `id`.
pub open spec fn backend_set_by_id(v: Seq<BackendSetResource>, id: Seq<char>) -> Option<BackendSetResource>
    decreases v.len(),
{
    if v.len() == 0 {
        None
    } else if v.last().metadata.id@ == id {
        Some(v.last())
    } else {
        backend_set_by_id(v.drop_last(), id)
    }
}

/// The last service filed under `id`.
pub open spec fn service_by_id(v: Seq<ServiceResource>, id: Seq<char>) -> Option<ServiceResource>
    decreases v.len(),
{
    if v.len() == 0 {
        None
    } else if v.last().metadata.id@ == id {
        Some(v.last())
    } else {
        service_by_id(v.drop_last(), id)
    }
}

/// The last compiled backend set filed under `id`.
pub open spec fn compiled_backend_set_by_id(v: Seq<CompiledBackendSetView>, id: Seq<char>) -> Option<CompiledBackendSetView>
    decreases v.len(),
{
    if v.len() == 0 {
        None
    } else if v.last().backend_set_id@ == id {
        Some(v.last())
    } else {
        compiled_backend_set_by_id(v.drop_last(), id)
    }
}

/// Whether a health check with id `id` compiled.
pub open spec fn health_check_compiled(v: Seq<CompiledHealthCheckView>, id: Seq<char>) -> bool {
    exists|i: int| 0 <= i < v.len() && (#[trigger] v[i]).health_check_id@ == id
}

/// `b` is the backend set built for backend set `bs`, compiled as `cbs`.
pub open spec fn backend_set_for(b: BackendSetIr, bs: BackendSetResource, cbs: CompiledBackendSetView,
    ports: Seq<PortResource>, node_id: Seq<char>) -> bool {
    &&& b.backend_set_id@ == bs.metadata.id@
    &&& b.tenant_id@ == bs.spec.tenant_id@
    &&& b.network_id@ == bs.spec.network_id@
    &&& b.selection_policy@ == bs.spec.policy@
    &&& opt_view(b.health_check_id) == opt_view(bs.spec.health_check_id)
    &&& b.local_backend_count == cbs.local_backend_count
    &&& b.remote_backend_count == cbs.remote_backend_count
    &&& b.backends.len() == bs.spec.backends.len()
    &&& forall|j: int| 0 <= j < b.backends.len() ==> member_for(#[trigger] b.backends@[j], bs.spec.backends@[j], ports, node_id)
    &&& b.shadow_apply_only
}

/// The backend set of a compiled service: present when the service names
/// one that is both desired and compiled.
pub open spec fn service_backend_set(c: CompiledServiceView, backend_sets: Seq<BackendSetResource>,
    compiled: Seq<CompiledBackendSetView>) -> Option<(BackendSetResource, CompiledBackendSetView)> {
    match c.backend_set_id {
        Some(id) => match (backend_set_by_id(backend_sets, id@), compiled_backend_set_by_id(compiled, id@)) {
            (Some(bs), Some(cbs)) => Some((bs, cbs)),
            _ => None,
        },
        None => None,
    }
}

/// `h` is the health check built from `hc`.
pub open spec fn health_check_for(h: HealthCheckIr, hc: HealthCheckResource) -> bool {
    &&& h.health_check_id@ == hc.metadata.id@
    &&& h.tenant_id@ == hc.spec.tenant_id@
    &&& opt_view(h.network_id) == opt_view(hc.spec.network_id)
    &&& h.probe_protocol@ == hc.spec.protocol@
    &&& h.interval_seconds == hc.spec.interval_seconds
    &&& h.timeout_seconds == hc.spec.timeout_seconds
    &&& h.healthy_threshold == hc.spec.healthy_threshold
    &&& h.unhealthy_threshold == hc.spec.unhealthy_threshold
    &&& h.target_port == hc.spec.target_port
    &&& h.has_request_template == hc.spec.request_template is Some
    &&& h.shadow_apply_only
}

/// The health check of a backend set: the one it names, when desired and
/// compiled.
pub open spec fn service_health_check(bs: Option<(BackendSetResource, CompiledBackendSetView)>,
    health_checks: Seq<HealthCheckResource>, compiled: Seq<CompiledHealthCheckView>) -> Option<HealthCheckResource> {
    match bs {
        Some((b, _)) => match b.spec.health_check_id {
            Some(id) => match health_check_by_id(health_checks, id@) {
                Some(hc) => if health_check_compiled(compiled, id@) { Some(hc) } else { None },
                None => None,
            },
            None => None,
        },
        None => None,
    }
}

/// The route mode of a network, or native when it is unknown.
pub open spec fn service_route_mode(networks: Seq<NetworkResource>, network_id: Seq<char>) -> Seq<char> {
    match network_by_id(networks, network_id) {
        Some(n) => n.spec.route_mode@,
        None => "native"@,
    }
}

/// `l` is the listener of port spec `p`.
pub open spec fn listener_for(l: ServiceFrontendPortIr, p: ServicePortSpec) -> bool {
    &&& opt_view(l.name) == opt_view(p.name)
    &&& l.service_port == p.port
    &&& l.target_port == p.target_port
}

/// `prog` is the program of compiled service `c`, whose desired service is `svc`.
pub open spec fn program_for(prog: ServiceProgramIr, c: CompiledServiceView, svc: ServiceResource,
    networks: Seq<NetworkResource>, health_checks: Seq<HealthCheckResource>, backend_sets: Seq<BackendSetResource>,
    ports: Seq<PortResource>, compiled_health_checks: Seq<CompiledHealthCheckView>,
    compiled_backend_sets: Seq<CompiledBackendSetView>, node_id: Seq<char>) -> bool {
    let bs = service_backend_set(c, backend_sets, compiled_backend_sets);
    let hc = service_health_check(bs, health_checks, compiled_health_checks);
    let node_local = match bs { Some((_, cbs)) => cbs.local_backend_count > 0, None => false };
    let cross_node = match bs { Some((_, cbs)) => cbs.remote_backend_count > 0, None => false };
    let route_mode = service_route_mode(networks, c.network_id@);
    let f = prog.frontend;
    &&& prog.service_id@ == c.service_id@
    &&& opt_view(prog.backend_set_id) == opt_view(c.backend_set_id)
    &&& match bs {
        Some((b, cbs)) => prog.backend_set matches Some(x) && backend_set_for(x, b, cbs, ports, node_id),
        None => prog.backend_set is None,
    }
    &&& match hc {
        Some(h) => prog.health_check matches Some(x) && health_check_for(x, h)
            && opt_view(prog.health_check_id) == Some(h.metadata.id@),
        None => prog.health_check is None && prog.health_check_id is None,
    }
    &&& f.service_id@ == c.service_id@
    &&& f.tenant_id@ == c.tenant_id@
    &&& f.network_id@ == c.network_id@
    &&& f.route_mode@ == route_mode
    &&& f.vip@ == c.vip@
    &&& f.protocol@ == c.protocol@
    &&& f.lb_policy@ == svc.spec.lb_policy@
    &&& opt_view(f.session_affinity) == opt_view(svc.spec.session_affinity)
    &&& f.exposure_type@ == c.exposure_type@
    &&& f.forwarding_mode@ == forwarding_mode_for(route_mode, cross_node)
    &&& f.listener_ports.len() == svc.spec.ports.len()
    &&& forall|j: int| 0 <= j < f.listener_ports.len() ==> listener_for(#[trigger] f.listener_ports@[j], svc.spec.ports@[j])
    &&& f.node_local_forwarding == node_local
    &&& f.cross_node_forwarding == cross_node
    &&& f.shadow_apply_only
    &&& prog.shadow_apply_only
}

/// The compiled services whose desired service is known, in order.
pub open spec fn known_services(c: Seq<CompiledServiceView>, services: Seq<ServiceResource>) -> Seq<CompiledServiceView>
    decreases c.len(),
{
    if c.len() == 0 {
        Seq::empty()
    } else if service_by_id(services, c.last().service_id@) is Some {
        known_services(c.drop_last(), services).push(c.last())
    } else {
        known_services(c.drop_last(), services)
    }
}

fn network_by_id_exec<'a>(v: &'a Vec<NetworkResource>, id: &str) -> (r: Option<&'a NetworkResource>)
    ensures
        match r {
            Some(x) => network_by_id(v@, id@) == Some(*x),
            None => network_by_id(v@, id@) is None,
        },
{
    let mut i: usize = v.len();
    assert(v@.take(i as int) =~= v@);
    while i > 0
        invariant
            i <= v.len(),
            network_by_id(v@, id@) == network_by_id(v@.take(i as int), id@),
        decreases i,
    {
        assert(v@.take(i as int).drop_last() =~= v@.take(i - 1));
        if str_eq(v[i - 1].metadata.id.as_str(), id) {
            return Some(&v[i - 1]);
        }
        i = i - 1;
    }
    None
}

fn health_check_by_id_exec<'a>(v: &'a Vec<HealthCheckResource>, id: &str) -> (r: Option<&'a HealthCheckResource>)
    ensures
        match r {
            Some(x) => health_check_by_id(v@, id@) == Some(*x),
            None => health_check_by_id(v@, id@) is None,
        },
{
    let mut i: usize = v.len();
    assert(v@.take(i as int) =~= v@);
    while i > 0
        invariant
            i <= v.len(),
            health_check_by_id(v@, id@) == health_check_by_id(v@.take(i as int), id@),
        decreases i,
    {
        assert(v@.take(i as int).drop_last() =~= v@.take(i - 1));
        if str_eq(v[i - 1].metadata.id.as_str(), id) {
            return Some(&v[i - 1]);
        }
        i = i - 1;
    }
    None
}

fn backend_set_by_id_exec<'a>(v: &'a Vec<BackendSetResource>, id: &str) -> (r: Option<&'a BackendSetResource>)
    ensures
        match r {
            Some(x) => backend_set_by_id(v@, id@) == Some(*x),
            None => backend_set_by_id(v@, id@) is None,
        },
{
    let mut i: usize = v.len();
    assert(v@.take(i as int) =~= v@);
    while i > 0
        invariant
            i <= v.len(),
            backend_set_by_id(v@, id@) == backend_set_by_id(v@.take(i as int), id@),
        decreases i,
    {
        assert(v@.take(i as int).drop_last() =~= v@.take(i - 1));
        if str_eq(v[i - 1].metadata.id.as_str(), id) {
            return Some(&v[i - 1]);
        }
        i = i - 1;
    }
    None
}

fn service_by_id_exec<'a>(v: &'a Vec<ServiceResource>, id: &str) -> (r: Option<&'a ServiceResource>)
    ensures
        match r {
            Some(x) => service_by_id(v@, id@) == Some(*x),
            None => service_by_id(v@, id@) is None,
        },
{
    let mut i: usize = v.len();
    assert(v@.take(i as int) =~= v@);
    while i > 0
        invariant
            i <= v.len(),
            service_by_id(v@, id@) == service_by_id(v@.take(i as int), id@),
        decreases i,
    {
        assert(v@.take(i as int).drop_last() =~= v@.take(i - 1));
        if str_eq(v[i - 1].metadata.id.as_str(), id) {
            return Some(&v[i - 1]);
        }
        i = i - 1;
    }
    None
}

fn compiled_backend_set_by_id_exec<'a>(v: &'a Vec<CompiledBackendSetView>, id: &str)
    -> (r: Option<&'a CompiledBackendSetView>)
    ensures
        match r {
            Some(x) => compiled_backend_set_by_id(v@, id@) == Some(*x),
            None => compiled_backend_set_by_id(v@, id@) is None,
        },
{
    let mut i: usize = v.len();
    assert(v@.take(i as int) =~= v@);
    while i > 0
        invariant
            i <= v.len(),
            compiled_backend_set_by_id(v@, id@) == compiled_backend_set_by_id(v@.take(i as int), id@),
        decreases i,
    {
        assert(v@.take(i as int).drop_last() =~= v@.take(i - 1));
        if str_eq(v[i - 1].backend_set_id.as_str(), id) {
            return Some(&v[i - 1]);
        }
        i = i - 1;
    }
    None
}

fn health_check_compiled_exec(v: &Vec<CompiledHealthCheckView>, id: &str) -> (r: bool)
    ensures
        r == health_check_compiled(v@, id@),
{
    let mut i: usize = 0;
    while i < v.len()
        invariant
            i <= v.len(),
            forall|j: int| 0 <= j < i ==> (#[trigger] v@[j]).health_check_id@ != id@,
        decreases v.len() - i,
    {
        if str_eq(v[i].health_check_id.as_str(), id) {
            return true;
        }
        i = i + 1;
    }
    false
}

fn backend_set_ir_of(bs: &BackendSetResource, cbs: &CompiledBackendSetView, ports: &Vec<PortResource>, node_id: &str)
    -> (b: BackendSetIr)
    ensures
        backend_set_for(b, *bs, *cbs, ports@, node_id@),
{
    let mut backends: Vec<BackendMemberIr> = Vec::new();
    let mut j: usize = 0;
    while j < bs.spec.backends.len()
        invariant
            j <= bs.spec.backends.len(),
            backends.len() == j,
            forall|k: int| 0 <= k < j ==> member_for(#[trigger] backends@[k], bs.spec.backends@[k], ports@, node_id@),
        decreases bs.spec.backends.len() - j,
    {
        backends.push(build_backend_member_ir(&bs.spec.backends[j], ports, node_id));
        j = j + 1;
    }
    BackendSetIr {
        backend_set_id: bs.metadata.id.clone(),
        tenant_id: bs.spec.tenant_id.clone(),
        network_id: bs.spec.network_id.clone(),
        selection_policy: bs.spec.policy.clone(),
        health_check_id: clone_opt(&bs.spec.health_check_id),
        local_backend_count: cbs.local_backend_count,
        remote_backend_count: cbs.remote_backend_count,
        backends,
        shadow_apply_only: true,
    }
}

fn health_check_ir_of(hc: &HealthCheckResource) -> (h: HealthCheckIr)
    ensures
        health_check_for(h, *hc),
{
    HealthCheckIr {
        health_check_id: hc.metadata.id.clone(),
        tenant_id: hc.spec.tenant_id.clone(),
        network_id: clone_opt(&hc.spec.network_id),
        probe_protocol: hc.spec.protocol.clone(),
        interval_seconds: hc.spec.interval_seconds,
        timeout_seconds: hc.spec.timeout_seconds,
        healthy_threshold: hc.spec.healthy_threshold,
        unhealthy_threshold: hc.spec.unhealthy_threshold,
        target_port: hc.spec.target_port,
        has_request_template: hc.spec.request_template.is_some(),
        shadow_apply_only: true,
    }
}

fn listeners_of(ports: &Vec<ServicePortSpec>) -> (r: Vec<ServiceFrontendPortIr>)
    ensures
        r.len() == ports.len(),
        forall|j: int| 0 <= j < r.len() ==> listener_for(#[trigger] r@[j], ports@[j]),
{
    let mut r: Vec<ServiceFrontendPortIr> = Vec::new();
    let mut j: usize = 0;
    while j < ports.len()
        invariant
            j <= ports.len(),
            r.len() == j,
            forall|k: int| 0 <= k < j ==> listener_for(#[trigger] r@[k], ports@[k]),
        decreases ports.len() - j,
    {
        r.push(ServiceFrontendPortIr {
            name: clone_opt(&ports[j].name),
            service_port: ports[j].port,
            target_port: ports[j].target_port,
        });
        j = j + 1;
    }
    r
}

fn program_of(c: &CompiledServiceView, svc: &ServiceResource, desired: &DesiredStateEnvelope,
    compiled_health_checks: &Vec<CompiledHealthCheckView>, compiled_backend_sets: &Vec<CompiledBackendSetView>,
    node_id: &str) -> (prog: ServiceProgramIr)
    ensures
        program_for(prog, *c, *svc, desired.networks@, desired.health_checks@, desired.backend_sets@, desired.ports@,
            compiled_health_checks@, compiled_backend_sets@, node_id@),
{
    let ghost bs_spec = service_backend_set(*c, desired.backend_sets@, compiled_backend_sets@);
    let found: Option<(&BackendSetResource, &CompiledBackendSetView)> = match &c.backend_set_id {
        Some(id) => match (backend_set_by_id_exec(&desired.backend_sets, id.as_str()),
            compiled_backend_set_by_id_exec(compiled_backend_sets, id.as_str())) {
            (Some(bs), Some(cbs)) => Some((bs, cbs)),
            _ => None,
        },
        None => None,
    };
    assert(match found { Some((b, cb)) => bs_spec == Some((*b, *cb)), None => bs_spec is None });
    let backend_set = match found {
        Some((bs, cbs)) => Some(backend_set_ir_of(bs, cbs, &desired.ports, node_id)),
        None => None,
    };
    let health_check = match found {
        Some((bs, _)) => match &bs.spec.health_check_id {
            Some(id) => match health_check_by_id_exec(&desired.health_checks, id.as_str()) {
                Some(hc) => if health_check_compiled_exec(compiled_health_checks, id.as_str()) {
                    Some(health_check_ir_of(hc))
                } else {
                    None
                },
                None => None,
            },
            None => None,
        },
        None => None,
    };
    let node_local_forwarding = match found { Some((_, cbs)) => cbs.local_backend_count > 0, None => false };
    let cross_node_forwarding = match found { Some((_, cbs)) => cbs.remote_backend_count > 0, None => false };
    let route_mode = match network_by_id_exec(&desired.networks, c.network_id.as_str()) {
        Some(n) => n.spec.route_mode.clone(),
        None => default_service_route_mode(),
    };
    let forwarding_mode = derive_service_forwarding_mode(route_mode.as_str(), cross_node_forwarding);
    let health_check_id = match &health_check {
        Some(h) => Some(h.health_check_id.clone()),
        None => None,
    };
    ServiceProgramIr {
        service_id: c.service_id.clone(),
        backend_set_id: clone_opt(&c.backend_set_id),
        health_check_id,
        frontend: ServiceFrontendIr {
            service_id: c.service_id.clone(),
            tenant_id: c.tenant_id.clone(),
            network_id: c.network_id.clone(),
            route_mode,
            vip: c.vip.clone(),
            protocol: c.protocol.clone(),
            lb_policy: svc.spec.lb_policy.clone(),
            session_affinity: clone_opt(&svc.spec.session_affinity),
            exposure_type: c.exposure_type.clone(),
            forwarding_mode,
            listener_ports: listeners_of(&svc.spec.ports),
            node_local_forwarding,
            cross_node_forwarding,
            shadow_apply_only: true,
        },
        backend_set,
        health_check,
        shadow_apply_only: true,
    }
}

/// The service programs: one for each compiled service whose desired
/// service is known, in order, joined with its backend set (when both
/// desired and compiled), that set's health check (when desired and
/// compiled), its listeners, and the route mode of its network.
pub fn build_service_programs(desired: &DesiredStateEnvelope, compiled_health_checks: &Vec<CompiledHealthCheckView>,
    compiled_backend_sets: &Vec<CompiledBackendSetView>, compiled_services: &Vec<CompiledServiceView>, node_id: &str)
    -> (r: Vec<ServiceProgramIr>)
    ensures
        r.len() == known_services(compiled_services@, desired.services@).len(),
        forall|i: int| 0 <= i < r.len() ==> {
            let c = known_services(compiled_services@, desired.services@)[i];
            program_for(#[trigger] r@[i], c, service_by_id(desired.services@, c.service_id@)->0,
                desired.networks@, desired.health_checks@, desired.backend_sets@, desired.ports@,
                compiled_health_checks@, compiled_backend_sets@, node_id@)
        },
{
    let mut r: Vec<ServiceProgramIr> = Vec::new();
    let mut i: usize = 0;
    while i < compiled_services.len()
        invariant
            i <= compiled_services.len(),
            r.len() == known_services(compiled_services@.take(i as int), desired.services@).len(),
            forall|k: int| 0 <= k < r.len() ==> {
                let c = known_services(compiled_services@.take(i as int), desired.services@)[k];
                program_for(#[trigger] r@[k], c, service_by_id(desired.services@, c.service_id@)->0,
                    desired.networks@, desired.health_checks@, desired.backend_sets@, desired.ports@,
                    compiled_health_checks@, compiled_backend_sets@, node_id@)
            },
        decreases compiled_services.len() - i,
    {
        let c = &compiled_services[i];
        let ghost before = known_services(compiled_services@.take(i as int), desired.services@);
        assert(compiled_services@.take(i + 1).drop_last() =~= compiled_services@.take(i as int));
        match service_by_id_exec(&desired.services, c.service_id.as_str()) {
            Some(svc) => {
                let prog = program_of(c, svc, desired, compiled_health_checks, compiled_backend_sets, node_id);
                r.push(prog);
                assert(known_services(compiled_services@.take(i + 1), desired.services@) == before.push(*c));
            },
            None => {
                assert(known_services(compiled_services@.take(i + 1), desired.services@) == before);
            },
        }
        i = i + 1;
    }
    assert(compiled_services@.take(i as int) =~= compiled_services@);
    r
}

} // verus!
