//! The node agent's configuration and the capability it reports.
use vstd::prelude::*;
use core::time::Duration;
use crate::api::southbound::NodeCapability;
use crate::order::{lemma_sorted_strings_unique, sort_strings, str_lt, str_sorted, strs};
use crate::text::{bool_text, join, join_strings, str_eq};

verus! {

broadcast use vstd::string::group_string_axioms;

/// How the node agent reaches its controller and where it keeps its state.
#[derive(Debug)]
pub struct PlatformAgentConfig {
    pub controller_url: String,
    pub node_id: String,
    pub management_address: Option<String>,
    /// Node labels, as key and value.
    pub labels: Vec<(String, String)>,
    pub poll_interval: Duration,
    pub register_interval: Duration,
    /// Directory under which the agent keeps its local state.
    pub state_dir: String,
    pub pin_path: String,
    /// Trace backend: `ringbuf` or another.
    pub trace_backend: String,
    pub kernel_version: Option<String>,
    pub max_port_policies: u32,
}

/// The capability a node with this configuration reports: XDP and TC
/// hooks, QoS shaping, the ring-buffer trace when configured (and then the
/// full observability profile), and its port-policy limit.
pub open spec fn capability_for(c: NodeCapability, config: PlatformAgentConfig) -> bool {
    let ringbuf = config.trace_backend@ == "ringbuf"@;
    &&& strs(c.supported_hooks@) == seq!["tc"@, "xdp"@]
    &&& c.supports_xdp
    &&& c.supports_tc
    &&& !c.supports_socket_lb
    &&& c.supports_trace_ringbuf == ringbuf
    &&& !c.supports_nat
    &&& !c.supports_lb
    &&& !c.supports_encap
    &&& c.supports_qos_shaping
    &&& c.limits.len() == 1
    &&& c.limits@[0].0@ == "max_port_policies"@
    &&& c.limits@[0].1 == config.max_port_policies as u64
    &&& c.observability_profile matches Some(p) && p@ == if ringbuf { "full"@ } else { "standard"@ }
}

/// The capability this node reports.
pub fn build_node_capability(config: &PlatformAgentConfig) -> (r: NodeCapability)
    ensures
        capability_for(r, *config),
{
    let mut supported_hooks: Vec<String> = Vec::new();
    supported_hooks.push("tc".to_string());
    supported_hooks.push("xdp".to_string());
    assert(strs(supported_hooks@) =~= seq!["tc"@, "xdp"@]);
    let mut limits: Vec<(String, u64)> = Vec::new();
    limits.push(("max_port_policies".to_string(), config.max_port_policies as u64));
    let ringbuf = str_eq(config.trace_backend.as_str(), "ringbuf");
    NodeCapability {
        supported_hooks,
        supports_xdp: true,
        supports_tc: true,
        supports_socket_lb: false,
        supports_trace_ringbuf: ringbuf,
        supports_nat: false,
        supports_lb: false,
        supports_encap: false,
        supports_qos_shaping: true,
        limits,
        observability_profile: Some(if ringbuf { "full".to_string() } else { "standard".to_string() }),
    }
}

/// The profile of a capability: its hooks sorted and joined with `+`, the
/// trace kind and whether it does NAT.
pub open spec fn profile_of(c: NodeCapability, hooks: Seq<Seq<char>>) -> Seq<char> {
    join(hooks, "+"@) + ":trace="@ + (if c.supports_trace_ringbuf { "ringbuf"@ } else { "legacy"@ }) + ":nat="@
        + bool_text(c.supports_nat)
}

/// The capability profile name, such as `tc+xdp:trace=ringbuf:nat=false`.
pub fn capability_profile(capability: &NodeCapability) -> (r: String)
    ensures
        exists|hooks: Seq<Seq<char>>| {
            &&& str_sorted(hooks)
            &&& hooks.to_multiset() == strs(capability.supported_hooks@).to_multiset()
            &&& r@ == profile_of(*capability, hooks)
        },
{
    let sorted = sort_strings(&capability.supported_hooks);
    let mut r = join_strings(&sorted, "+");
    r.append(":trace=");
    r.append(if capability.supports_trace_ringbuf { "ringbuf" } else { "legacy" });
    r.append(":nat=");
    r.append(if capability.supports_nat { "true" } else { "false" });
    assert(r@ =~= profile_of(*capability, strs(sorted@)));
    r
}


/// A node reports the profile of the capability it is built with: its two
/// hooks, its trace kind, and no NAT.
pub proof fn lemma_reported_profile(c: NodeCapability, config: PlatformAgentConfig, hooks: Seq<Seq<char>>)
    requires
        capability_for(c, config),
        str_sorted(hooks),
        hooks.to_multiset() == strs(c.supported_hooks@).to_multiset(),
    ensures
        profile_of(c, hooks) == if config.trace_backend@ == "ringbuf"@ {
            "tc+xdp:trace=ringbuf:nat=false"@
        } else {
            "tc+xdp:trace=legacy:nat=false"@
        },
{
    reveal_strlit("tc");
    reveal_strlit("xdp");
    reveal_strlit("+");
    reveal_strlit(":trace=");
    reveal_strlit("ringbuf");
    reveal_strlit("legacy");
    reveal_strlit(":nat=");
    reveal_strlit("false");
    reveal_strlit("tc+xdp:trace=ringbuf:nat=false");
    reveal_strlit("tc+xdp:trace=legacy:nat=false");
    let two = seq!["tc"@, "xdp"@];
    assert(str_lt("tc"@, "xdp"@)) by {
        assert("tc"@[0] == 't');
        assert("xdp"@[0] == 'x');
    }
    assert(str_sorted(two));
    lemma_sorted_strings_unique(hooks, two);
    assert(hooks == two);
    assert(two.drop_last() =~= seq!["tc"@]);
    assert(join(two.drop_last(), "+"@) == "tc"@);
    assert(two.last() == "xdp"@);
    assert(join(two, "+"@) == join(two.drop_last(), "+"@) + "+"@ + two.last());
    assert(join(hooks, "+"@) =~= "tc"@ + "+"@ + "xdp"@);
    if config.trace_backend@ == "ringbuf"@ {
        assert(profile_of(c, hooks) =~= "tc+xdp:trace=ringbuf:nat=false"@);
    } else {
        assert(profile_of(c, hooks) =~= "tc+xdp:trace=legacy:nat=false"@);
    }
}

} // verus!
