//! Names of the numeric protocol, action and direction codes used on the
//! wire, and the reverse lookups that accept operator input.
use vstd::prelude::*;
use crate::text::{ascii_lowercase, concat3, decimal, lemma_decimal_reads_back, lemma_parse_decimal, lower_eq, parse_unsigned, parse_unsigned_exec, u64_to_decimal};

verus! {

broadcast use vstd::string::group_string_axioms;

/// Name of an IP protocol number: the well-known ones by name, others as a number.
pub open spec fn proto_name(proto: u8) -> Seq<char> {
    if proto == 0 { "any"@ }
    else if proto == 1 { "icmp"@ }
    else if proto == 6 { "tcp"@ }
    else if proto == 17 { "udp"@ }
    else { decimal(proto as nat) }
}

/// Protocol number named by `s` (case-insensitive name, or a number up to 255).
pub open spec fn proto_code(s: Seq<char>) -> Result<u8, Seq<char>> {
    let l = ascii_lowercase(s);
    if l == "tcp"@ { Ok(6u8) }
    else if l == "udp"@ { Ok(17u8) }
    else if l == "icmp"@ { Ok(1u8) }
    else if l == "any"@ { Ok(0u8) }
    else {
        match parse_unsigned(s, 10, 255) {
            Some(v) => Ok(v as u8),
            None => Err("Invalid protocol '"@ + s + "'"@),
        }
    }
}

/// Name of a policy action code.
pub open spec fn action_name(action: u8) -> Seq<char> {
    if action == 0 { "allow"@ } else if action == 1 { "drop"@ } else { decimal(action as nat) }
}

/// Action code named by `s`, case-insensitively.
pub open spec fn action_code(s: Seq<char>) -> Result<u8, Seq<char>> {
    let l = ascii_lowercase(s);
    if l == "accept"@ || l == "pass"@ || l == "allow"@ { Ok(0u8) }
    else if l == "drop"@ || l == "deny"@ { Ok(1u8) }
    else { Err("Invalid action '"@ + s + "'"@) }
}

/// Name of a traffic direction code.
pub open spec fn direction_name(direction: u8) -> Seq<char> {
    if direction == 0 { "ingress"@ } else if direction == 1 { "egress"@ } else { decimal(direction as nat) }
}

/// Direction code named by `s`, case-insensitively; `both` is 2.
pub open spec fn direction_code(s: Seq<char>) -> Result<u8, Seq<char>> {
    let l = ascii_lowercase(s);
    if l == "ingress"@ || l == "in"@ { Ok(0u8) }
    else if l == "egress"@ || l == "out"@ { Ok(1u8) }
    else if l == "both"@ || l == "all"@ { Ok(2u8) }
    else { Err("Invalid direction '"@ + s + "': must be 'ingress', 'egress', or 'both'"@) }
}

/// Whether a string-valued result matches a spec result.
pub open spec fn matches_code(r: Result<u8, String>, spec: Result<u8, Seq<char>>) -> bool {
    match r {
        Ok(v) => spec == Ok::<u8, Seq<char>>(v),
        Err(e) => spec == Err::<u8, Seq<char>>(e@),
    }
}


/// Name of protocol number `proto`.
pub fn proto_to_string(proto: u8) -> (r: String)
    ensures
        r@ == proto_name(proto),
{
    match proto {
        0 => "any".to_string(),
        1 => "icmp".to_string(),
        6 => "tcp".to_string(),
        17 => "udp".to_string(),
        _ => u64_to_decimal(proto as u64),
    }
}

/// Protocol number named by `proto`.
pub fn proto_from_string(proto: &str) -> (r: Result<u8, String>)
    ensures
        matches_code(r, proto_code(proto@)),
{
    if lower_eq(proto, "tcp") {
        Ok(6)
    } else if lower_eq(proto, "udp") {
        Ok(17)
    } else if lower_eq(proto, "icmp") {
        Ok(1)
    } else if lower_eq(proto, "any") {
        Ok(0)
    } else {
        match parse_unsigned_exec(proto, 10, 255) {
            Some(v) => Ok(v as u8),
            None => Err(concat3("Invalid protocol '", proto, "'")),
        }
    }
}

/// Name of action code `action`.
pub fn action_to_string(action: u8) -> (r: String)
    ensures
        r@ == action_name(action),
{
    match action {
        0 => "allow".to_string(),
        1 => "drop".to_string(),
        _ => u64_to_decimal(action as u64),
    }
}

/// Action code named by `action`.
pub fn action_from_string(action: &str) -> (r: Result<u8, String>)
    ensures
        matches_code(r, action_code(action@)),
{
    if lower_eq(action, "accept") || lower_eq(action, "pass") || lower_eq(action, "allow") {
        Ok(0)
    } else if lower_eq(action, "drop") || lower_eq(action, "deny") {
        Ok(1)
    } else {
        Err(concat3("Invalid action '", action, "'"))
    }
}

/// Name of direction code `direction`.
pub fn direction_to_string(direction: u8) -> (r: String)
    ensures
        r@ == direction_name(direction),
{
    match direction {
        0 => "ingress".to_string(),
        1 => "egress".to_string(),
        _ => u64_to_decimal(direction as u64),
    }
}

/// Direction code named by `direction`.
pub fn direction_from_string(direction: &str) -> (r: Result<u8, String>)
    ensures
        matches_code(r, direction_code(direction@)),
{
    if lower_eq(direction, "ingress") || lower_eq(direction, "in") {
        Ok(0)
    } else if lower_eq(direction, "egress") || lower_eq(direction, "out") {
        Ok(1)
    } else if lower_eq(direction, "both") || lower_eq(direction, "all") {
        Ok(2)
    } else {
        Err(concat3("Invalid direction '", direction, "': must be 'ingress', 'egress', or 'both'"))
    }
}


proof fn lemma_decimal_is_no_word(n: nat, w: Seq<char>)
    requires
        w.len() >= 1,
        !(48 <= (w[0] as u32) <= 57),
    ensures
        ascii_lowercase(decimal(n)) != w,
{
    lemma_decimal_reads_back(n);
    assert(48 <= (decimal(n)[0] as u32) <= 57);
}

/// Every protocol number is read back from its own name.
pub proof fn lemma_proto_round_trip(proto: u8)
    ensures
        proto_code(proto_name(proto)) == Ok::<u8, Seq<char>>(proto),
{
    reveal_strlit("any");
    reveal_strlit("icmp");
    reveal_strlit("tcp");
    reveal_strlit("udp");
    if proto == 0 {
        assert(ascii_lowercase("any"@) =~= "any"@);
        assert("any"@ != "tcp"@);
        assert("any"@ != "udp"@);
        assert("any"@ != "icmp"@);
    } else if proto == 1 {
        assert(ascii_lowercase("icmp"@) =~= "icmp"@);
        assert("icmp"@ != "tcp"@);
        assert("icmp"@ != "udp"@);
    } else if proto == 6 {
        assert(ascii_lowercase("tcp"@) =~= "tcp"@);
    } else if proto == 17 {
        assert(ascii_lowercase("udp"@) =~= "udp"@);
        assert("udp"@ != "tcp"@);
    } else {
        lemma_decimal_is_no_word(proto as nat, "tcp"@);
        lemma_decimal_is_no_word(proto as nat, "udp"@);
        lemma_decimal_is_no_word(proto as nat, "icmp"@);
        lemma_decimal_is_no_word(proto as nat, "any"@);
        lemma_parse_decimal(proto as nat, 255);
    }
}

/// The allow and drop codes are read back from their names; any other code's
/// name is refused.
pub proof fn lemma_action_round_trip(action: u8)
    ensures
        action <= 1 ==> action_code(action_name(action)) == Ok::<u8, Seq<char>>(action),
        action > 1 ==> action_code(action_name(action)) is Err,
{
    reveal_strlit("accept");
    reveal_strlit("pass");
    reveal_strlit("allow");
    reveal_strlit("drop");
    reveal_strlit("deny");
    if action == 0 {
        assert(ascii_lowercase("allow"@) =~= "allow"@);
        assert("allow"@ != "accept"@);
        assert("allow"@ != "pass"@);
    } else if action == 1 {
        assert(ascii_lowercase("drop"@) =~= "drop"@);
        assert("drop"@ != "accept"@);
        assert("drop"@[0] != "pass"@[0]);
        assert("drop"@ != "allow"@);
    } else {
        lemma_decimal_is_no_word(action as nat, "accept"@);
        lemma_decimal_is_no_word(action as nat, "pass"@);
        lemma_decimal_is_no_word(action as nat, "allow"@);
        lemma_decimal_is_no_word(action as nat, "drop"@);
        lemma_decimal_is_no_word(action as nat, "deny"@);
    }
}

/// The ingress and egress codes are read back from their names; any other
/// code's name, that of `both` (2) among them, is refused.
pub proof fn lemma_direction_round_trip(direction: u8)
    ensures
        direction <= 1 ==> direction_code(direction_name(direction)) == Ok::<u8, Seq<char>>(direction),
        direction > 1 ==> direction_code(direction_name(direction)) is Err,
{
    reveal_strlit("ingress");
    reveal_strlit("in");
    reveal_strlit("egress");
    reveal_strlit("out");
    reveal_strlit("both");
    reveal_strlit("all");
    if direction == 0 {
        assert(ascii_lowercase("ingress"@) =~= "ingress"@);
    } else if direction == 1 {
        assert(ascii_lowercase("egress"@) =~= "egress"@);
        assert("egress"@ != "ingress"@);
        assert("egress"@ != "in"@);
    } else {
        lemma_decimal_is_no_word(direction as nat, "ingress"@);
        lemma_decimal_is_no_word(direction as nat, "in"@);
        lemma_decimal_is_no_word(direction as nat, "egress"@);
        lemma_decimal_is_no_word(direction as nat, "out"@);
        lemma_decimal_is_no_word(direction as nat, "both"@);
        lemma_decimal_is_no_word(direction as nat, "all"@);
    }
}

} // verus!
