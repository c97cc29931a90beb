//! Building blocks of the compiled node state: addresses, local ids,
//! runtime labels, port ranges and backend members.
use vstd::prelude::*;
use crate::agent::ir::{BackendMemberIr, PortIdentityIr};
use crate::api::platform::backend_set::BackendTargetSpec;
use crate::api::platform::port::PortResource;
use crate::order::strs;
use crate::text::{
    before_char, clone_opt, concat3, find_char, find_char_exec, opt_view, parse_unsigned, parse_unsigned_exec,
    result_view, split_char, split_str, str_eq, trim, trim_str,
};
use vstd::string::StringSliceAdditionalSpecFns;

verus! {

broadcast use vstd::string::group_string_axioms;

/// The prefix of an IPv4-mapped IPv6 address: ten zero bytes, then two 0xff.
pub open spec fn v4_mapped_prefix() -> Seq<u8> {
    seq![0u8, 0u8, 0u8, 0u8, 0u8, 0u8, 0u8, 0u8, 0u8, 0u8, 0xffu8, 0xffu8]
}

/// Whether `a` (16 bytes) is an IPv4-mapped IPv6 address.
pub open spec fn v4_mapped(a: Seq<u8>) -> bool {
    a.take(12) == v4_mapped_prefix()
}

/// The IPv4-mapped IPv6 address of the IPv4 address `ip`.
pub open spec fn mapped_bytes(ip: Seq<u8>) -> Seq<u8> {
    v4_mapped_prefix() + ip
}

/// The big-endian value of four bytes.
pub open spec fn be_u32(b0: u8, b1: u8, b2: u8, b3: u8) -> nat {
    b0 as nat * 16777216 + b1 as nat * 65536 + b2 as nat * 256 + b3 as nat
}

/// The four big-endian bytes of `x`.
pub open spec fn be_bytes(x: u32) -> Seq<u8> {
    seq![(x as nat / 16777216) as u8, (x as nat / 65536 % 256) as u8, (x as nat / 256 % 256) as u8, (x as nat % 256) as u8]
}

/// The IPv4-mapped IPv6 address of `ip`.
pub fn ipv4_to_v4mapped_bytes(ip: [u8; 4]) -> (r: [u8; 16])
    ensures
        r@ == mapped_bytes(ip@),
{
    let r = [0, 0, 0, 0, 0, 0, 0, 0, 0, 0, 0xff, 0xff, ip[0], ip[1], ip[2], ip[3]];
    assert(r@ =~= mapped_bytes(ip@));
    r
}

/// Whether `address` is an IPv4-mapped IPv6 address.
pub fn is_v4_mapped(address: &[u8; 16]) -> (r: bool)
    ensures
        r == v4_mapped(address@),
{
    let mut i: usize = 0;
    while i < 12
        invariant
            i <= 12,
            forall|j: int| 0 <= j < i ==> address@[j] == v4_mapped_prefix()[j],
        decreases 12 - i,
    {
        let want: u8 = if i < 10 { 0 } else { 0xff };
        assert(want == v4_mapped_prefix()[i as int]);
        if address[i] != want {
            assert(address@.take(12)[i as int] != v4_mapped_prefix()[i as int]);
            return false;
        }
        i = i + 1;
    }
    assert(address@.take(12) =~= v4_mapped_prefix());
    true
}

/// The IPv4 address held by an IPv4-mapped address, as a number.
pub fn extract_ipv4_u32(address: &[u8; 16]) -> (r: Option<u32>)
    ensures
        r == if v4_mapped(address@) {
            Some(be_u32(address@[12], address@[13], address@[14], address@[15]) as u32)
        } else {
            None::<u32>
        },
        r matches Some(v) ==> v as nat == be_u32(address@[12], address@[13], address@[14], address@[15]),
{
    if is_v4_mapped(address) {
        let v: u32 = (address[12] as u32) * 16777216 + (address[13] as u32) * 65536 + (address[14] as u32) * 256
            + (address[15] as u32);
        Some(v)
    } else {
        None
    }
}

/// Whether all sixteen bytes are zero.
pub open spec fn all_zero(a: Seq<u8>) -> bool {
    forall|i: int| 0 <= i < a.len() ==> a[i] == 0
}

fn is_all_zero(address: &[u8; 16]) -> (r: bool)
    ensures
        r == all_zero(address@),
{
    let mut i: usize = 0;
    while i < 16
        invariant
            i <= 16,
            forall|j: int| 0 <= j < i ==> address@[j] == 0,
        decreases 16 - i,
    {
        if address[i] != 0 {
            return false;
        }
        i = i + 1;
    }
    true
}

/// The address itself when it is a true IPv6 address: neither mapped IPv4
/// nor unspecified.
pub fn extract_ipv6_bytes(address: &[u8; 16]) -> (r: Option<[u8; 16]>)
    ensures
        r == if v4_mapped(address@) || all_zero(address@) { None } else { Some(*address) },
{
    if is_v4_mapped(address) || is_all_zero(address) {
        None
    } else {
        Some(*address)
    }
}

fn u32_to_be_bytes(x: u32) -> (r: [u8; 4])
    ensures
        r@ == be_bytes(x),
{
    let r = [(x / 16777216) as u8, (x / 65536 % 256) as u8, (x / 256 % 256) as u8, (x % 256) as u8];
    assert(r@ =~= be_bytes(x));
    r
}

/// The next-hop address of a port: its IPv4 address mapped, else its IPv6
/// address, else unspecified.
pub open spec fn port_next_hop(p: PortIdentityIr) -> Seq<u8> {
    if p.primary_ipv4 != 0 {
        mapped_bytes(be_bytes(p.primary_ipv4))
    } else if !all_zero(p.primary_ipv6@) {
        p.primary_ipv6@
    } else {
        Seq::new(16, |i: int| 0u8)
    }
}

/// The address a route uses to reach a local port.
pub fn next_hop_ip_for_port(port_identity: &PortIdentityIr) -> (r: [u8; 16])
    ensures
        r@ == port_next_hop(*port_identity),
{
    if port_identity.primary_ipv4 != 0 {
        ipv4_to_v4mapped_bytes(u32_to_be_bytes(port_identity.primary_ipv4))
    } else if !is_all_zero(&port_identity.primary_ipv6) {
        port_identity.primary_ipv6
    } else {
        let r = [0u8; 16];
        assert(r@ =~= Seq::new(16, |i: int| 0u8));
        r
    }
}

/// Mapping an IPv4 address and reading it back gives the address again.
pub proof fn lemma_mapped_round_trip(ip: Seq<u8>)
    requires
        ip.len() == 4,
    ensures
        v4_mapped(mapped_bytes(ip)),
        mapped_bytes(ip).len() == 16,
        mapped_bytes(ip)[12] == ip[0],
        mapped_bytes(ip)[13] == ip[1],
        mapped_bytes(ip)[14] == ip[2],
        mapped_bytes(ip)[15] == ip[3],
{
    assert(mapped_bytes(ip).take(12) =~= v4_mapped_prefix());
}

/// The big-endian bytes of a number read back as the number.
pub proof fn lemma_be_round_trip(x: u32)
    ensures
        be_u32(be_bytes(x)[0], be_bytes(x)[1], be_bytes(x)[2], be_bytes(x)[3]) == x,
{
    let n = x as nat;
    assert(n / 16777216 < 256) by (nonlinear_arith) requires n < 0x1_0000_0000;
    assert(n == (n / 16777216) * 16777216 + (n / 65536 % 256) * 65536 + (n / 256 % 256) * 256 + n % 256)
        by (nonlinear_arith) requires n < 0x1_0000_0000;
}

/// A port with an IPv4 address is reached at that address, mapped: reading
/// the IPv4 address back from its next hop gives the port's address.
pub proof fn lemma_port_ipv4_reads_back(p: PortIdentityIr)
    requires
        p.primary_ipv4 != 0,
    ensures
        v4_mapped(port_next_hop(p)),
        be_u32(port_next_hop(p)[12], port_next_hop(p)[13], port_next_hop(p)[14], port_next_hop(p)[15])
            == p.primary_ipv4,
{
    lemma_mapped_round_trip(be_bytes(p.primary_ipv4));
    lemma_be_round_trip(p.primary_ipv4);
}

/// FNV-1a (32 bits) of `bytes`.
pub open spec fn fnv1a(bytes: Seq<u8>) -> u32
    decreases bytes.len(),
{
    if bytes.len() == 0 {
        0x811c9dc5u32
    } else {
        (((fnv1a(bytes.drop_last()) ^ (bytes.last() as u32)) as nat * 0x0100_0193nat) % 0x1_0000_0000nat) as u32
    }
}

/// The local id of a name: FNV-1a of its UTF-8 bytes, with zero read as one.
pub open spec fn local_id(s: &str) -> u32 {
    if fnv1a(s.spec_bytes()) == 0 { 1u32 } else { fnv1a(s.spec_bytes()) }
}

/// A node-local 32-bit id for a name: FNV-1a over its UTF-8 bytes, never
/// zero (zero becomes one).
pub fn stable_local_id(value: &str) -> (r: u32)
    ensures
        r == local_id(value),
        r != 0,
{
    let bytes = value.as_bytes();
    let mut hash: u32 = 0x811c9dc5;
    let mut i: usize = 0;
    while i < bytes.len()
        invariant
            i <= bytes.len(),
            bytes@ == value.spec_bytes(),
            hash == fnv1a(bytes@.take(i as int)),
        decreases bytes.len() - i,
    {
        assert(bytes@.take(i + 1).drop_last() =~= bytes@.take(i as int));
        hash = hash ^ (bytes[i] as u32);
        hash = hash.wrapping_mul(0x0100_0193);
        i = i + 1;
    }
    assert(bytes@.take(i as int) =~= bytes@);
    if hash == 0 {
        1
    } else {
        hash
    }
}

/// The 16-bit local id of a name: the low half of its 32-bit id, never
/// zero (zero becomes one).
pub fn stable_local_id16(value: &str) -> (r: u16)
    ensures
        r == if local_id(value) as u16 == 0 { 1u16 } else { local_id(value) as u16 },
        r != 0,
{
    let mut hash = stable_local_id(value) as u16;
    if hash == 0 {
        hash = 1;
    }
    hash
}

/// What precedes the first `/` of an address: the address without its
/// prefix length.
pub fn strip_cidr_suffix(value: &str) -> (r: String)
    ensures
        r@ == before_char(value@, '/'),
{
    match find_char_exec(value, '/') {
        Some(i) => {
            let r = value.substring_char(0, i).to_string();
            proof {
                let k = find_char(value@, '/')->0;
                assert(k == i) by {
                    if k < i as int {
                        assert(value@[k] == '/');
                    } else if i < k {
                        assert(value@[i as int] == '/');
                    }
                }
            }
            assert(r@ =~= value@.take(i as int));
            r
        },
        None => {
            assert(!(exists|i: int| 0 <= i < value@.len() && value@[i] == '/'));
            value.to_string()
        },
    }
}

/// The route mode of a service whose network gives none.
pub fn default_service_route_mode() -> (r: String)
    ensures
        r@ == "native"@,
{
    "native".to_string()
}

/// The forwarding mode of a service with no cross-node backends.
pub fn default_service_forwarding_mode() -> (r: String)
    ensures
        r@ == "node_local_only"@,
{
    "node_local_only".to_string()
}

/// How a service forwards: node-locally unless it has cross-node backends,
/// and then by its network's route mode.
pub open spec fn forwarding_mode_for(route_mode: Seq<char>, cross_node_forwarding: bool) -> Seq<char> {
    if !cross_node_forwarding {
        "node_local_only"@
    } else if route_mode == "overlay"@ {
        "cross_node_overlay"@
    } else if route_mode == "hybrid"@ {
        "cross_node_hybrid"@
    } else {
        "cross_node_native"@
    }
}

/// The forwarding mode of a service, from its route mode and whether it
/// forwards across nodes.
pub fn derive_service_forwarding_mode(route_mode: &str, cross_node_forwarding: bool) -> (r: String)
    ensures
        r@ == forwarding_mode_for(route_mode@, cross_node_forwarding),
{
    if !cross_node_forwarding {
        return default_service_forwarding_mode();
    }
    if str_eq(route_mode, "overlay") {
        "cross_node_overlay".to_string()
    } else if str_eq(route_mode, "hybrid") {
        "cross_node_hybrid".to_string()
    } else {
        "cross_node_native".to_string()
    }
}

/// Whether `c` occurs in `s`.
pub open spec fn has_char(s: Seq<char>, c: char) -> bool {
    exists|i: int| 0 <= i < s.len() && s[i] == c
}

/// A port, parsed as std reads a `u16`.
pub open spec fn port_number(s: Seq<char>) -> Option<nat> {
    parse_unsigned(s, 10, 65535)
}

/// The port range of a security rule: none (0, 0) when absent or blank; a
/// single port `p` as (p, p); or `a-b` with `a <= b`; lists and colons are
/// refused.
pub open spec fn security_port_range(port_range: Option<Seq<char>>) -> Result<(u16, u16), Seq<char>> {
    match port_range {
        None => Ok((0u16, 0u16)),
        Some(raw) => {
            let t = trim(raw);
            if t.len() == 0 {
                Ok((0u16, 0u16))
            } else if has_char(t, ',') || has_char(t, ':') {
                Err("phase-3 mode-a only supports a single port or a single range"@)
            } else {
                match find_char(t, '-') {
                    Some(i) => match port_number(trim(t.take(i))) {
                        None => Err("invalid port range start"@),
                        Some(a) => match port_number(trim(t.skip(i + 1))) {
                            None => Err("invalid port range end"@),
                            Some(b) => if a > b {
                                Err("port range start must be <= end"@)
                            } else {
                                Ok((a as u16, b as u16))
                            },
                        },
                    },
                    None => match port_number(t) {
                        None => Err("invalid port"@),
                        Some(p) => Ok((p as u16, p as u16)),
                    },
                }
            }
        },
    }
}

fn has_char_exec(s: &str, c: char) -> (r: bool)
    ensures
        r == has_char(s@, c),
{
    find_char_exec(s, c).is_some()
}

fn parse_port(s: &str) -> (r: Option<u16>)
    ensures
        r matches Some(v) ==> port_number(s@) == Some(v as nat),
        r is None ==> port_number(s@) is None,
{
    match parse_unsigned_exec(s, 10, 65535) {
        Some(v) => Some(v as u16),
        None => None,
    }
}

/// The port range of a security rule.
pub fn parse_security_port_range(port_range: Option<&str>) -> (r: Result<(u16, u16), String>)
    ensures
        result_view(r) == security_port_range(match port_range { Some(s) => Some(s@), None => None }),
{
    let raw = match port_range {
        None => return Ok((0, 0)),
        Some(raw) => raw,
    };
    let t = trim_str(raw);
    let t = t.as_str();
    let n = t.unicode_len();
    if n == 0 {
        return Ok((0, 0));
    }
    if has_char_exec(t, ',') || has_char_exec(t, ':') {
        return Err("phase-3 mode-a only supports a single port or a single range".to_string());
    }
    match find_char_exec(t, '-') {
        Some(i) => {
            proof {
                let k = find_char(t@, '-')->0;
                assert(k == i) by {
                    if k < i as int {
                        assert(t@[k] == '-');
                    } else if i < k {
                        assert(t@[i as int] == '-');
                    }
                }
            }
            let start_raw = trim_str(t.substring_char(0, i));
            assert(t@.subrange(0, i as int) =~= t@.take(i as int));
            let end_raw = trim_str(t.substring_char(i + 1, n));
            assert(t@.subrange(i + 1, t@.len() as int) =~= t@.skip(i + 1));
            let start = match parse_port(start_raw.as_str()) {
                Some(v) => v,
                None => return Err("invalid port range start".to_string()),
            };
            let end = match parse_port(end_raw.as_str()) {
                Some(v) => v,
                None => return Err("invalid port range end".to_string()),
            };
            if start > end {
                return Err("port range start must be <= end".to_string());
            }
            Ok((start, end))
        },
        None => {
            assert(!(exists|j: int| 0 <= j < t@.len() && t@[j] == '-'));
            match parse_port(t) {
                Some(p) => Ok((p, p)),
                None => Err("invalid port".to_string()),
            }
        },
    }
}

/// The octets of a MAC address, read in order as hex bytes (as std's
/// `u8::from_str_radix` with base 16 reads them); the first piece that is
/// no hex byte is named in the error.
pub open spec fn hex_octets(p: Seq<Seq<char>>) -> Result<Seq<u8>, Seq<char>>
    decreases p.len(),
{
    if p.len() == 0 {
        Ok(Seq::empty())
    } else {
        match hex_octets(p.drop_last()) {
            Err(e) => Err(e),
            Ok(v) => match parse_unsigned(p.last(), 16, 255) {
                Some(x) => Ok(v.push(x as u8)),
                None => Err("invalid mac_address octet '"@ + p.last() + "'"@),
            },
        }
    }
}

/// A MAC address: six hex octets separated by colons.
pub open spec fn mac_address(s: Seq<char>) -> Result<Seq<u8>, Seq<char>> {
    let p = split_char(s, ':');
    if p.len() != 6 {
        Err("mac_address must contain 6 octets"@)
    } else {
        hex_octets(p)
    }
}

/// Reads a MAC address written as six hex octets separated by colons.
pub fn parse_mac_address(value: &str) -> (r: Result<[u8; 6], String>)
    ensures
        match r {
            Ok(mac) => mac_address(value@) == Ok::<Seq<u8>, Seq<char>>(mac@),
            Err(e) => mac_address(value@) == Err::<Seq<u8>, Seq<char>>(e@),
        },
{
    let parts = split_str(value, ':');
    if parts.len() != 6 {
        return Err("mac_address must contain 6 octets".to_string());
    }
    let ghost p = strs(parts@);
    let mut mac = [0u8; 6];
    let mut idx: usize = 0;
    assert(p.take(0) =~= Seq::<Seq<char>>::empty());
    assert(mac@.take(0) =~= Seq::<u8>::empty());
    while idx < 6
        invariant
            idx <= 6,
            parts.len() == 6,
            p == strs(parts@),
            p == split_char(value@, ':'),
            hex_octets(p.take(idx as int)) == Ok::<Seq<u8>, Seq<char>>(mac@.take(idx as int)),
        decreases 6 - idx,
    {
        assert(p.take(idx + 1).drop_last() =~= p.take(idx as int));
        assert(p.take(idx + 1).last() == parts@[idx as int]@);
        match parse_unsigned_exec(parts[idx].as_str(), 16, 255) {
            Some(x) => {
                let ghost before = mac@;
                mac[idx] = x as u8;
                assert(mac@.take(idx + 1) =~= before.take(idx as int).push(x as u8));
            },
            None => {
                let e = concat3("invalid mac_address octet '", parts[idx].as_str(), "'");
                proof {
                    let q = p.take(idx + 1);
                    assert(q.last() == parts@[idx as int]@);
                    assert(hex_octets(q) == Err::<Seq<u8>, Seq<char>>(e@));
                    lemma_hex_octets_err(p, idx as int + 1);
                    assert(split_char(value@, ':') == p);
                }
                return Err(e);
            },
        }
        idx = idx + 1;
    }
    assert(p.take(6) =~= p);
    assert(mac@.take(6) =~= mac@);
    Ok(mac)
}

proof fn lemma_hex_octets_err(p: Seq<Seq<char>>, k: int)
    requires
        0 <= k <= p.len(),
        hex_octets(p.take(k)) is Err,
    ensures
        hex_octets(p) == hex_octets(p.take(k)),
    decreases p.len() - k,
{
    if k < p.len() {
        assert(p.take(k + 1).drop_last() =~= p.take(k));
        lemma_hex_octets_err(p, k + 1);
    } else {
        assert(p.take(k) =~= p);
    }
}

/// The value of the last label filed under `key`, as a map keeps it.
pub open spec fn label_value(labels: Seq<(String, String)>, key: Seq<char>) -> Option<Seq<char>>
    decreases labels.len(),
{
    if labels.len() == 0 {
        None
    } else if labels.last().0@ == key {
        Some(labels.last().1@)
    } else {
        label_value(labels.drop_last(), key)
    }
}

/// A required runtime label: present, a `u32` as std reads one, and not zero.
pub open spec fn runtime_label(labels: Seq<(String, String)>, key: Seq<char>) -> Result<u32, Seq<char>> {
    match label_value(labels, key) {
        None => Err("missing required runtime label '"@ + key + "'"@),
        Some(v) => match parse_unsigned(v, 10, 0xffff_ffff) {
            None => Err("runtime label '"@ + key + "' must be a positive integer"@),
            Some(n) => if n == 0 {
                Err("runtime label '"@ + key + "' must be non-zero"@)
            } else {
                Ok(n as u32)
            },
        },
    }
}

fn label_value_exec<'a>(labels: &'a Vec<(String, String)>, key: &str) -> (r: Option<&'a String>)
    ensures
        match r {
            Some(v) => label_value(labels@, key@) == Some(v@),
            None => label_value(labels@, key@) is None,
        },
{
    let mut i: usize = labels.len();
    assert(labels@.take(i as int) =~= labels@);
    while i > 0
        invariant
            i <= labels.len(),
            label_value(labels@, key@) == label_value(labels@.take(i as int), key@),
        decreases i,
    {
        assert(labels@.take(i as int).drop_last() =~= labels@.take(i - 1));
        if str_eq(labels[i - 1].0.as_str(), key) {
            return Some(&labels[i - 1].1);
        }
        i = i - 1;
    }
    None
}

/// The numeric runtime label `key` of a port, which must be present, a
/// `u32` and not zero.
pub fn required_runtime_label(port: &PortResource, key: &str) -> (r: Result<u32, String>)
    ensures
        result_view(r) == runtime_label(port.metadata.labels@, key@),
{
    let value = match label_value_exec(&port.metadata.labels, key) {
        Some(v) => v,
        None => return Err(concat3("missing required runtime label '", key, "'")),
    };
    let parsed = match parse_unsigned_exec(value.as_str(), 10, 0xffff_ffff) {
        Some(n) => n,
        None => return Err(concat3("runtime label '", key, "' must be a positive integer")),
    };
    if parsed == 0 {
        return Err(concat3("runtime label '", key, "' must be non-zero"));
    }
    Ok(parsed as u32)
}

/// The last port filed under `id`, as a map keyed by id keeps it.
pub open spec fn port_by_id(ports: Seq<PortResource>, id: Seq<char>) -> Option<PortResource>
    decreases ports.len(),
{
    if ports.len() == 0 {
        None
    } else if ports.last().metadata.id@ == id {
        Some(ports.last())
    } else {
        port_by_id(ports.drop_last(), id)
    }
}

/// The port that `target_ref` names, if the backend has one and it is known.
pub open spec fn referenced_port(b: BackendTargetSpec, ports: Seq<PortResource>) -> Option<PortResource> {
    match b.target_ref {
        Some(r) => port_by_id(ports, r@),
        None => None,
    }
}

/// Where a backend runs as seen from `node_id`: a referenced port is local
/// when it is bound to this node or to none; otherwise a backend without a
/// reference pinned to this node is local; else its declared locality, or
/// remote.
pub open spec fn member_locality(b: BackendTargetSpec, ports: Seq<PortResource>, node_id: Seq<char>) -> Seq<char> {
    match referenced_port(b, ports) {
        Some(p) => if opt_view(p.spec.node_id).unwrap_or(node_id) == node_id { "local"@ } else { "remote"@ },
        None => if b.target_ref is None && opt_view(b.node_id) == Some(node_id) {
            "local"@
        } else {
            opt_view(b.locality).unwrap_or("remote"@)
        },
    }
}

/// `m` is the backend member built from `b` on node `node_id`.
pub open spec fn member_for(m: BackendMemberIr, b: BackendTargetSpec, ports: Seq<PortResource>, node_id: Seq<char>) -> bool {
    let found = referenced_port(b, ports);
    let locality = member_locality(b, ports, node_id);
    &&& m.backend_id@ == b.id@
    &&& m.target_type@ == b.target_type@
    &&& opt_view(m.target_ref) == opt_view(b.target_ref)
    &&& opt_view(m.resolved_ip_hint) == match found {
        Some(p) => if b.ip is Some {
            opt_view(b.ip)
        } else if p.spec.fixed_ips.len() > 0 {
            Some(before_char(p.spec.fixed_ips@[0]@, '/'))
        } else {
            None
        },
        None => opt_view(b.ip),
    }
    &&& m.service_port == b.port
    &&& m.weight == b.weight
    &&& m.admin_state@ == opt_view(b.admin_state).unwrap_or("enabled"@)
    &&& opt_view(m.node_id) == match found {
        Some(p) => if p.spec.node_id is Some { opt_view(p.spec.node_id) } else { opt_view(b.node_id) },
        None => opt_view(b.node_id),
    }
    &&& opt_view(m.declared_locality) == opt_view(b.locality)
    &&& m.resolved_locality@ == locality
    &&& m.forwarding_scope@ == if locality == "local"@ { "node_local"@ } else { "cross_node"@ }
    &&& m.resolution@ == if found is Some {
        "resolved_from_port_ref"@
    } else if b.target_ref is Some {
        "shadow_remote_reference"@
    } else if b.ip is Some {
        "direct_ip"@
    } else {
        "literal_target"@
    }
    &&& m.shadow_apply_only
}

pub(crate) fn port_by_id_exec<'a>(ports: &'a Vec<PortResource>, id: &str) -> (r: Option<&'a PortResource>)
    ensures
        match r {
            Some(p) => port_by_id(ports@, id@) == Some(*p),
            None => port_by_id(ports@, id@) is None,
        },
{
    let mut i: usize = ports.len();
    assert(ports@.take(i as int) =~= ports@);
    while i > 0
        invariant
            i <= ports.len(),
            port_by_id(ports@, id@) == port_by_id(ports@.take(i as int), id@),
        decreases i,
    {
        assert(ports@.take(i as int).drop_last() =~= ports@.take(i - 1));
        if str_eq(ports[i - 1].metadata.id.as_str(), id) {
            return Some(&ports[i - 1]);
        }
        i = i - 1;
    }
    None
}

/// The backend member for `backend` on node `node_id`: its locality,
/// address hint, node and how it was resolved, looking up the port it
/// references among `ports` (the last one with that id).
pub fn build_backend_member_ir(backend: &BackendTargetSpec, ports: &Vec<PortResource>, node_id: &str)
    -> (m: BackendMemberIr)
    ensures
        member_for(m, *backend, ports@, node_id@),
{
    let mut resolved_ip_hint = clone_opt(&backend.ip);
    let mut resolved_locality = match &backend.locality {
        Some(l) => l.clone(),
        None => "remote".to_string(),
    };
    let mut resolution = if backend.target_ref.is_some() {
        "shadow_remote_reference".to_string()
    } else if backend.ip.is_some() {
        "direct_ip".to_string()
    } else {
        "literal_target".to_string()
    };
    let mut resolved_node_id = clone_opt(&backend.node_id);

    match &backend.target_ref {
        Some(target_ref) => {
            match port_by_id_exec(ports, target_ref.as_str()) {
                Some(port) => {
                    let bound_local = match &port.spec.node_id {
                        Some(n) => str_eq(n.as_str(), node_id),
                        None => true,
                    };
                    resolved_locality = if bound_local { "local".to_string() } else { "remote".to_string() };
                    resolved_node_id = match &port.spec.node_id {
                        Some(n) => Some(n.clone()),
                        None => clone_opt(&backend.node_id),
                    };
                    if resolved_ip_hint.is_none() && port.spec.fixed_ips.len() > 0 {
                        resolved_ip_hint = Some(strip_cidr_suffix(port.spec.fixed_ips[0].as_str()));
                    }
                    resolution = "resolved_from_port_ref".to_string();
                },
                None => {},
            }
        },
        None => {
            let pinned = match &backend.node_id {
                Some(n) => str_eq(n.as_str(), node_id),
                None => false,
            };
            if pinned {
                resolved_locality = "local".to_string();
            }
        },
    }

    let forwarding_scope = if str_eq(resolved_locality.as_str(), "local") {
        "node_local".to_string()
    } else {
        "cross_node".to_string()
    };
    let admin_state = match &backend.admin_state {
        Some(a) => a.clone(),
        None => "enabled".to_string(),
    };
    BackendMemberIr {
        backend_id: backend.id.clone(),
        target_type: backend.target_type.clone(),
        target_ref: clone_opt(&backend.target_ref),
        resolved_ip_hint,
        service_port: backend.port,
        weight: backend.weight,
        admin_state,
        node_id: resolved_node_id,
        declared_locality: clone_opt(&backend.locality),
        resolved_locality,
        forwarding_scope,
        resolution,
        shadow_apply_only: true,
    }
}


/// A port range that is accepted never runs backwards.
pub proof fn lemma_port_range_ordered(port_range: Option<Seq<char>>)
    ensures
        security_port_range(port_range) matches Ok((a, b)) ==> a <= b,
{
    match port_range {
        None => {},
        Some(raw) => {
            let t = trim(raw);
            match find_char(t, '-') {
                Some(i) => {
                    let pa = port_number(trim(t.take(i)));
                    let pb = port_number(trim(t.skip(i + 1)));
                    if pa is Some && pb is Some {
                        let a = pa->0;
                        let b = pb->0;
                        assert(a <= 65535 && b <= 65535);
                    }
                },
                None => {},
            }
        },
    }
}

} // verus!
