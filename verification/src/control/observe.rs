//! The observe pipeline: which gathered events answer a query, in which
//! order, and the time window a query asks for.
use vstd::prelude::*;
use crate::api::platform::event::EventEnvelope;
use crate::api::platform::observe::ObserveQuery;
use crate::control::error::ControlPlaneError;
use crate::text::{
    chars_of, result_view, digit_value, concat3, decimal, digits_value, find_char, find_char_exec, int_error_text, opt_view,
    parse_decimal_or_error, parse_unsigned, parse_unsigned_exec, str_eq, trim, trim_str, u64_to_decimal,
};

verus! {

broadcast use vstd::string::group_string_axioms;

/// Events returned when a query names no limit.
pub const OBSERVE_DEFAULT_LIMIT: usize = 200;

/// The most events a query can return.
pub const OBSERVE_MAX_LIMIT: usize = 5000;

/// Nanoseconds in a second.
pub const NANOS_PER_SECOND: u64 = 1_000_000_000;

/// The number of events a query returns at most: its limit (200 when
/// absent), capped at 5000.
pub open spec fn limit_of(q: ObserveQuery) -> usize {
    let l = match q.limit {
        Some(l) => l,
        None => OBSERVE_DEFAULT_LIMIT,
    };
    if l < OBSERVE_MAX_LIMIT { l } else { OBSERVE_MAX_LIMIT }
}

/// The number of events that `query` may return.
pub fn observe_limit(query: &ObserveQuery) -> (r: usize)
    ensures
        r == limit_of(*query),
{
    let l = match query.limit {
        Some(l) => l,
        None => OBSERVE_DEFAULT_LIMIT,
    };
    if l < OBSERVE_MAX_LIMIT { l } else { OBSERVE_MAX_LIMIT }
}

/// An event timestamp in decimal (zero as `0`).
pub fn observe_timestamp_or_zero(timestamp: u64) -> (r: String)
    ensures
        r@ == decimal(timestamp as nat),
{
    if timestamp == 0 {
        proof {
            reveal_strlit("0");
        }
        let r = "0".to_string();
        assert(r@ =~= decimal(0));
        r
    } else {
        u64_to_decimal(timestamp)
    }
}

/// The name of a load-balancing algorithm code.
pub open spec fn lb_algo(algo: u8) -> Seq<char> {
    if algo == 0 {
        "random"@
    } else if algo == 1 {
        "maglev"@
    } else if algo == 2 {
        "hash_src_ip"@
    } else {
        "algo_"@ + decimal(algo as nat)
    }
}

/// The name of load-balancing algorithm `algo`: `random`, `maglev`,
/// `hash_src_ip`, else `algo_` and its number.
pub fn lb_algo_name(algo: u8) -> (r: String)
    ensures
        r@ == lb_algo(algo),
{
    if algo == 0 {
        "random".to_string()
    } else if algo == 1 {
        "maglev".to_string()
    } else if algo == 2 {
        "hash_src_ip".to_string()
    } else {
        let n = u64_to_decimal(algo as u64);
        let r = concat3("algo_", n.as_str(), "");
        proof {
            reveal_strlit("");
        }
        assert(r@ =~= "algo_"@ + decimal(algo as nat));
        r
    }
}

/// The sort key of an event: its timestamp as a `u64`, or zero when it is
/// none.
pub open spec fn timestamp_key(e: EventEnvelope) -> u64 {
    match parse_unsigned(e.timestamp@, 10, u64::MAX as nat) {
        Some(n) => n as u64,
        None => 0,
    }
}

/// The sort key of `event`.
pub fn event_timestamp_key(event: &EventEnvelope) -> (r: u64)
    ensures
        r == timestamp_key(*event),
{
    match parse_unsigned_exec(event.timestamp.as_str(), 10, u64::MAX) {
        Some(n) => n,
        None => 0,
    }
}

/// An event matches a query when it has the type, instance, service,
/// addresses, destination port and protocol that the query names.
pub open spec fn event_matches(e: EventEnvelope, q: ObserveQuery) -> bool {
    &&& (q.event_type matches Some(t) ==> e.event_type@ == t@)
    &&& (q.instance_id matches Some(i) ==> opt_view(e.instance_id) == Some(i@))
    &&& (q.service_id matches Some(v) ==> opt_view(e.service_id) == Some(v@))
    &&& (q.protocol matches Some(p) ==> opt_view(e.protocol) == Some(p@))
    &&& (q.src_ip matches Some(s) ==> opt_view(e.src_ip) == Some(s@))
    &&& (q.dst_ip matches Some(d) ==> opt_view(e.dst_ip) == Some(d@))
    &&& (q.dst_port matches Some(p) ==> e.dst_port == Some(p))
}

fn opt_str_eq(o: &Option<String>, s: &String) -> (r: bool)
    ensures
        r == (opt_view(*o) == Some(s@)),
{
    match o {
        Some(x) => str_eq(x.as_str(), s.as_str()),
        None => false,
    }
}

/// Whether `event` matches `query`.
pub fn matches_observe_query(event: &EventEnvelope, query: &ObserveQuery) -> (r: bool)
    ensures
        r == event_matches(*event, *query),
{
    if let Some(event_type) = &query.event_type {
        if !str_eq(event.event_type.as_str(), event_type.as_str()) {
            return false;
        }
    }
    if let Some(instance_id) = &query.instance_id {
        if !opt_str_eq(&event.instance_id, instance_id) {
            return false;
        }
    }
    if let Some(service_id) = &query.service_id {
        if !opt_str_eq(&event.service_id, service_id) {
            return false;
        }
    }
    if let Some(protocol) = &query.protocol {
        if !opt_str_eq(&event.protocol, protocol) {
            return false;
        }
    }
    if let Some(src_ip) = &query.src_ip {
        if !opt_str_eq(&event.src_ip, src_ip) {
            return false;
        }
    }
    if let Some(dst_ip) = &query.dst_ip {
        if !opt_str_eq(&event.dst_ip, dst_ip) {
            return false;
        }
    }
    if let Some(dst_port) = query.dst_port {
        match event.dst_port {
            Some(p) => if p != dst_port {
                return false;
            },
            None => return false,
        }
    }
    true
}

/// `x * y`, or `u64::MAX` when that does not fit.
pub open spec fn sat_mul(x: u64, y: u64) -> u64 {
    if x * y > u64::MAX { u64::MAX } else { (x * y) as u64 }
}

/// `x + y`, or `u64::MAX` when that does not fit.
pub open spec fn sat_add(x: u64, y: u64) -> u64 {
    if x + y > u64::MAX { u64::MAX } else { (x + y) as u64 }
}

fn saturating_mul(x: u64, y: u64) -> (r: u64)
    ensures
        r == sat_mul(x, y),
{
    match x.checked_mul(y) {
        Some(v) => v,
        None => u64::MAX,
    }
}

/// The length of the look-back window that a query asks for, in
/// nanoseconds (saturating); none without a time range; a zero range is
/// refused.
pub open spec fn window_of(q: ObserveQuery) -> Result<Option<u64>, Seq<char>> {
    match q.time_range {
        None => Ok(None),
        Some(t) => if t == 0 {
            Err("time_range must be greater than 0 seconds"@)
        } else {
            Ok(Some(sat_mul(t, NANOS_PER_SECOND)))
        },
    }
}

/// The look-back window of `query`, in nanoseconds.
pub fn observe_window_ns(query: &ObserveQuery) -> (r: Result<Option<u64>, ControlPlaneError>)
    ensures
        match r {
            Ok(w) => window_of(*query) == Ok::<Option<u64>, Seq<char>>(w),
            Err(e) => e matches ControlPlaneError::ValidationError(m)
                && window_of(*query) == Err::<Option<u64>, Seq<char>>(m@),
        },
{
    match query.time_range {
        None => Ok(None),
        Some(t) => if t == 0 {
            Err(ControlPlaneError::ValidationError("time_range must be greater than 0 seconds".to_string()))
        } else {
            Ok(Some(saturating_mul(t, NANOS_PER_SECOND)))
        },
    }
}

/// The oldest timestamp a window admits: `window_ns` before `now_ns`,
/// saturating at zero.
pub fn min_timestamp_from(now_ns: u64, window_ns: u64) -> (r: u64)
    ensures
        r == if now_ns >= window_ns { (now_ns - window_ns) as u64 } else { 0u64 },
{
    now_ns.saturating_sub(window_ns)
}

/// The ASCII digits of `s`, in order.
pub open spec fn ascii_digits(s: Seq<char>) -> Seq<char>
    decreases s.len(),
{
    if s.len() == 0 {
        Seq::empty()
    } else if '0' <= s.last() <= '9' {
        ascii_digits(s.drop_last()).push(s.last())
    } else {
        ascii_digits(s.drop_last())
    }
}

/// `d` padded on the right with zeros to nine characters.
pub open spec fn pad_nine(d: Seq<char>) -> Seq<char> {
    d + Seq::new((9 - d.len()) as nat, |i: int| '0')
}

/// At most the first nine characters of `s`.
pub open spec fn first_nine(s: Seq<char>) -> Seq<char> {
    if s.len() > 9 { s.take(9) } else { s }
}

/// The nanoseconds of a fraction of a second: its first nine ASCII digits,
/// padded with zeros.
pub open spec fn fraction_nanos(f: Seq<char>) -> nat {
    digits_value(pad_nine(first_nine(ascii_digits(f))), 10)
}

/// A time since boot in seconds with an optional fraction, read as
/// nanoseconds (saturating); the seconds must be a `u64`.
pub open spec fn uptime_ns(value: Seq<char>) -> Result<u64, Seq<char>> {
    let t = trim(value);
    if t.len() == 0 {
        Err("empty uptime value"@)
    } else {
        let secs_raw = match find_char(t, '.') {
            Some(i) => t.take(i),
            None => t,
        };
        let frac_raw = match find_char(t, '.') {
            Some(i) => t.skip(i + 1),
            None => Seq::empty(),
        };
        match parse_unsigned(secs_raw, 10, u64::MAX as nat) {
            None => Err("invalid uptime seconds '"@ + secs_raw + "': "@ + int_error_text(secs_raw, u64::MAX as nat)),
            Some(secs) => Ok(sat_add(sat_mul(secs as u64, NANOS_PER_SECOND), fraction_nanos(frac_raw) as u64)),
        }
    }
}

/// Ten to the power `j`.
pub open spec fn ten_pow(j: nat) -> nat
    decreases j,
{
    if j == 0 { 1 } else { 10 * ten_pow((j - 1) as nat) }
}

proof fn lemma_ten_pow_le_nine(j: nat)
    requires
        j <= 9,
    ensures
        ten_pow(j) <= 1_000_000_000,
    decreases 9 - j,
{
    if j < 9 {
        lemma_ten_pow_le_nine(j + 1);
    } else {
        reveal_with_fuel(ten_pow, 10);
        assert(ten_pow(9) == 1_000_000_000);
    }
}

fn fraction_nanos_exec(f: &str) -> (r: u64)
    ensures
        r as nat == fraction_nanos(f@),
        r < 1_000_000_000,
{
    let chars = chars_of(f);
    let mut digits: Vec<char> = Vec::new();
    let mut i: usize = 0;
    assert(f@.take(0) =~= Seq::<char>::empty());
    while i < chars.len()
        invariant
            i <= chars.len(),
            chars@ == f@,
            digits@ == ascii_digits(f@.take(i as int)),
        decreases chars.len() - i,
    {
        assert(f@.take(i + 1).drop_last() =~= f@.take(i as int));
        let c = chars[i];
        if '0' <= c && c <= '9' {
            digits.push(c);
        }
        i = i + 1;
    }
    assert(f@.take(i as int) =~= f@);
    let ghost d = first_nine(ascii_digits(f@));
    proof {
        lemma_ascii_digits_are_digits(f@);
    }
    let ghost p = pad_nine(d);
    assert(p.len() == 9);
    let mut v: u64 = 0;
    let mut j: usize = 0;
    assert(p.take(0) =~= Seq::<char>::empty());
    while j < 9
        invariant
            j <= 9,
            digits@ == ascii_digits(f@),
            d == first_nine(ascii_digits(f@)),
            p == pad_nine(d),
            p.len() == 9,
            v as nat == digits_value(p.take(j as int), 10),
            v < ten_pow(j as nat),
            forall|k: int| 0 <= k < digits.len() ==> '0' <= #[trigger] digits@[k] <= '9',
        decreases 9 - j,
    {
        proof {
            lemma_ascii_digits_are_digits(f@);
            lemma_ten_pow_le_nine(j as nat);
        }
        let c: char = if j < digits.len() { digits[j] } else { '0' };
        assert(c == p[j as int]);
        let dv: u64 = (c as u32 - 48) as u64;
        assert(digit_value(c, 10) == Some(dv as nat));
        assert(p.take(j + 1).drop_last() =~= p.take(j as int));
        assert(v * 10 + dv < ten_pow((j + 1) as nat)) by (nonlinear_arith)
            requires v < ten_pow(j as nat), dv < 10, ten_pow((j + 1) as nat) == 10 * ten_pow(j as nat);
        v = v * 10 + dv;
        j = j + 1;
    }
    proof {
        lemma_ten_pow_le_nine(9);
    }
    assert(p.take(9) =~= p);
    v
}

proof fn lemma_ascii_digits_are_digits(s: Seq<char>)
    ensures
        forall|k: int| 0 <= k < ascii_digits(s).len() ==> '0' <= #[trigger] ascii_digits(s)[k] <= '9',
    decreases s.len(),
{
    if s.len() > 0 {
        lemma_ascii_digits_are_digits(s.drop_last());
        let a = ascii_digits(s.drop_last());
        assert forall|k: int| 0 <= k < ascii_digits(s).len() implies '0' <= #[trigger] ascii_digits(s)[k] <= '9' by {
            if k < a.len() {
                assert(ascii_digits(s)[k] == a[k]);
            }
        }
    }
}

/// Reads a time since boot, in seconds with an optional fraction, as
/// nanoseconds.
pub fn parse_uptime_ns(value: &str) -> (r: Result<u64, String>)
    ensures
        result_view(r) == uptime_ns(value@),
{
    let trimmed = trim_str(value);
    let t = trimmed.as_str();
    let n = t.unicode_len();
    if n == 0 {
        return Err("empty uptime value".to_string());
    }
    let dot = find_char_exec(t, '.');
    proof {
        if dot is Some {
            let i = dot->0;
            let k = find_char(t@, '.')->0;
            assert(k == i) by {
                if k < i as int {
                    assert(t@[k] == '.');
                } else if i < k {
                    assert(t@[i as int] == '.');
                }
            }
        } else {
            assert(!(exists|j: int| 0 <= j < t@.len() && t@[j] == '.'));
        }
    }
    let secs_raw: &str = match dot {
        Some(i) => t.substring_char(0, i),
        None => t,
    };
    let frac_raw: &str = match dot {
        Some(i) => t.substring_char(i + 1, n),
        None => t.substring_char(n, n),
    };
    assert(match dot { Some(i) => secs_raw@ =~= t@.take(i as int), None => secs_raw@ == t@ });
    assert(match dot { Some(i) => frac_raw@ =~= t@.skip(i + 1), None => frac_raw@ =~= Seq::<char>::empty() });
    let seconds = match parse_decimal_or_error(secs_raw, u64::MAX) {
        Ok(v) => v,
        Err(e) => {
            let mut m = concat3("invalid uptime seconds '", secs_raw, "': ");
            m.append(e.as_str());
            return Err(m);
        },
    };
    let nanos = fraction_nanos_exec(frac_raw);
    let total = saturating_mul(seconds, NANOS_PER_SECOND);
    Ok(total.saturating_add(nanos))
}

/// An event answers a query when it matches it and, under a time window,
/// has a timestamp at or after the window's start.
pub open spec fn kept(e: EventEnvelope, q: ObserveQuery, min_ts: Option<u64>) -> bool {
    &&& event_matches(e, q)
    &&& (min_ts matches Some(m) ==> timestamp_key(e) > 0 && timestamp_key(e) >= m)
}

/// The positions of the events that answer a query, in order.
pub open spec fn kept_indices(events: Seq<EventEnvelope>, q: ObserveQuery, min_ts: Option<u64>) -> Seq<int>
    decreases events.len(),
{
    if events.len() == 0 {
        Seq::empty()
    } else if kept(events.last(), q, min_ts) {
        kept_indices(events.drop_last(), q, min_ts).push(events.len() - 1)
    } else {
        kept_indices(events.drop_last(), q, min_ts)
    }
}

/// Event `a` is listed before event `b`: it is newer, or as new and
/// gathered earlier.
pub open spec fn comes_before(events: Seq<EventEnvelope>, a: int, b: int) -> bool {
    ||| timestamp_key(events[a]) > timestamp_key(events[b])
    ||| timestamp_key(events[a]) == timestamp_key(events[b]) && a < b
}

/// `ord` lists the events that answer a query, newest first, ties in the
/// order they were gathered.
pub open spec fn newest_first(events: Seq<EventEnvelope>, ord: Seq<int>, q: ObserveQuery, min_ts: Option<u64>) -> bool {
    lists_newest_first(events, ord, kept_indices(events, q, min_ts))
}

/// Pairs ordered by their first, then their second component.
pub open spec fn pair_le(a: (u64, u64), b: (u64, u64)) -> bool {
    a.0 < b.0 || (a.0 == b.0 && a.1 <= b.1)
}

/// Sorts pairs of integers with std's `sort_unstable`: afterwards `v` holds
/// the same pairs, ascending by their first and then their second component
/// (the order std gives tuples of integers).
#[verifier::external_body]
fn sort_pairs(v: &mut Vec<(u64, u64)>)
    ensures
        final(v)@.to_multiset() == old(v)@.to_multiset(),
        forall|i: int, j: int| 0 <= i < j < final(v)@.len() ==> pair_le(#[trigger] final(v)@[i], #[trigger] final(v)@[j]),
{
    v.sort_unstable();
}

/// The sort pair of event `i`: newer events get smaller first components.
pub open spec fn pair_of(events: Seq<EventEnvelope>, i: int) -> (u64, u64) {
    ((u64::MAX - timestamp_key(events[i])) as u64, i as u64)
}

proof fn lemma_kept_indices_bounds(events: Seq<EventEnvelope>, q: ObserveQuery, min_ts: Option<u64>)
    ensures
        forall|m: int| 0 <= m < kept_indices(events, q, min_ts).len()
            ==> 0 <= #[trigger] kept_indices(events, q, min_ts)[m] < events.len(),
        forall|a: int, b: int| 0 <= a < b < kept_indices(events, q, min_ts).len()
            ==> #[trigger] kept_indices(events, q, min_ts)[a] < #[trigger] kept_indices(events, q, min_ts)[b],
    decreases events.len(),
{
    if events.len() > 0 {
        lemma_kept_indices_bounds(events.drop_last(), q, min_ts);
        let p = kept_indices(events.drop_last(), q, min_ts);
        let k = kept_indices(events, q, min_ts);
        assert forall|m: int| 0 <= m < k.len() implies 0 <= #[trigger] k[m] < events.len() by {
            if m < p.len() {
                assert(k[m] == p[m]);
            }
        }
        assert forall|a: int, b: int| 0 <= a < b < k.len() implies #[trigger] k[a] < #[trigger] k[b] by {
            assert(k[a] == p[a]);
            if b < p.len() {
                assert(k[b] == p[b]);
            }
        }
    }
}

proof fn lemma_kept_prefix(events: Seq<EventEnvelope>, q: ObserveQuery, min_ts: Option<u64>, i: int)
    requires
        0 <= i < events.len(),
    ensures
        kept_indices(events.take(i + 1), q, min_ts) == if kept(events[i], q, min_ts) {
            kept_indices(events.take(i), q, min_ts).push(i)
        } else {
            kept_indices(events.take(i), q, min_ts)
        },
{
    assert(events.take(i + 1).drop_last() =~= events.take(i));
}

fn sort_keys(events: &Vec<EventEnvelope>, query: &ObserveQuery, min_timestamp_ns: Option<u64>) -> (r: Vec<(u64, u64)>)
    ensures
        r@.len() == kept_indices(events@, *query, min_timestamp_ns).len(),
        forall|m: int| 0 <= m < r@.len() ==> #[trigger] r@[m] == pair_of(events@, kept_indices(events@, *query, min_timestamp_ns)[m]),
{
    let ghost ev = events@;
    let mut pairs: Vec<(u64, u64)> = Vec::new();
    let mut i: usize = 0;
    assert(ev.take(0) =~= Seq::<EventEnvelope>::empty());
    while i < events.len()
        invariant
            i <= events.len(),
            ev == events@,
            pairs@.len() == kept_indices(ev.take(i as int), *query, min_timestamp_ns).len(),
            forall|m: int| 0 <= m < pairs@.len() ==> #[trigger] pairs@[m] == pair_of(ev, kept_indices(ev.take(i as int), *query, min_timestamp_ns)[m]),
        decreases events.len() - i,
    {
        proof {
            lemma_kept_prefix(ev, *query, min_timestamp_ns, i as int);
        }
        let e = &events[i];
        let min_ok = match min_timestamp_ns {
            Some(m) => {
                let k = event_timestamp_key(e);
                k > 0 && k >= m
            },
            None => true,
        };
        if matches_observe_query(e, query) && min_ok {
            let k = event_timestamp_key(e);
            let ghost before = pairs@;
            pairs.push((u64::MAX - k, i as u64));
            proof {
                let ks = kept_indices(ev.take(i + 1), *query, min_timestamp_ns);
                assert forall|m: int| 0 <= m < pairs@.len() implies #[trigger] pairs@[m] == pair_of(ev, ks[m]) by {
                    if m < before.len() {
                        assert(pairs@[m] == before[m]);
                    }
                }
            }
        }
        i = i + 1;
    }
    assert(ev.take(i as int) =~= ev);
    pairs
}

/// `ord` lists exactly the positions `ks`, newest first, ties in the order
/// they were gathered.
pub open spec fn lists_newest_first(events: Seq<EventEnvelope>, ord: Seq<int>, ks: Seq<int>) -> bool {
    &&& ord.to_set() == ks.to_set()
    &&& forall|a: int, b: int| 0 <= a < b < ord.len() ==> comes_before(events, #[trigger] ord[a], #[trigger] ord[b])
}

proof fn lemma_sorted_pairs(events: Seq<EventEnvelope>, ks: Seq<int>, init: Seq<(u64, u64)>, fin: Seq<(u64, u64)>)
    requires
        forall|m: int| 0 <= m < ks.len() ==> 0 <= #[trigger] ks[m] < events.len(),
        forall|a: int, b: int| 0 <= a < b < ks.len() ==> #[trigger] ks[a] < #[trigger] ks[b],
        events.len() <= u64::MAX,
        init.len() == ks.len(),
        forall|m: int| 0 <= m < init.len() ==> #[trigger] init[m] == pair_of(events, ks[m]),
        fin.to_multiset() == init.to_multiset(),
        forall|i: int, j: int| 0 <= i < j < fin.len() ==> pair_le(#[trigger] fin[i], #[trigger] fin[j]),
    ensures
        fin.len() == init.len(),
        forall|a: int| 0 <= a < fin.len() ==> 0 <= (#[trigger] fin[a]).1 < events.len()
            && fin[a] == pair_of(events, fin[a].1 as int),
        fin.no_duplicates(),
        lists_newest_first(events, fin.map_values(|p: (u64, u64)| p.1 as int), ks),
{
    broadcast use vstd::seq_lib::group_to_multiset_ensures;
    assert(init.no_duplicates()) by {
        assert forall|a: int, b: int| 0 <= a < init.len() && 0 <= b < init.len() && a != b implies init[a] != init[b] by {
            if a < b {
                assert(ks[a] < ks[b]);
            } else {
                assert(ks[b] < ks[a]);
            }
        }
    }
    init.lemma_multiset_has_no_duplicates();
    fin.lemma_multiset_has_no_duplicates_conv();
    assert(fin.len() == fin.to_multiset().len());
    assert(init.len() == init.to_multiset().len());
    assert forall|a: int| 0 <= a < fin.len() implies exists|m: int| 0 <= m < init.len() && init[m] == #[trigger] fin[a] by {
        assert(fin.contains(fin[a]));
        assert(fin.to_multiset().count(fin[a]) > 0);
        assert(init.contains(fin[a]));
    }
    assert forall|a: int| 0 <= a < fin.len() implies 0 <= (#[trigger] fin[a]).1 < events.len()
        && fin[a] == pair_of(events, fin[a].1 as int) by {
        let m = choose|m: int| 0 <= m < init.len() && init[m] == fin[a];
        assert(init[m] == pair_of(events, ks[m]));
    }
    let ord = fin.map_values(|p: (u64, u64)| p.1 as int);
    assert forall|a: int, b: int| 0 <= a < b < ord.len() implies comes_before(events, #[trigger] ord[a], #[trigger] ord[b]) by {
        assert(pair_le(fin[a], fin[b]));
        assert(fin[a] != fin[b]);
        assert(fin[a] == pair_of(events, fin[a].1 as int));
        assert(fin[b] == pair_of(events, fin[b].1 as int));
    }
    assert forall|x: int| ord.to_set().contains(x) <==> ks.to_set().contains(x) by {
        if ord.to_set().contains(x) {
            let a = choose|a: int| 0 <= a < ord.len() && ord[a] == x;
            let m = choose|m: int| 0 <= m < init.len() && init[m] == fin[a];
            assert(init[m] == pair_of(events, ks[m]));
            assert(ks[m] == x);
            assert(ks.contains(x));
        }
        if ks.to_set().contains(x) {
            let m = choose|m: int| 0 <= m < ks.len() && ks[m] == x;
            assert(init.contains(init[m]));
            assert(init.to_multiset().count(init[m]) > 0);
            assert(fin.contains(init[m]));
            let a = choose|a: int| 0 <= a < fin.len() && fin[a] == init[m];
            assert(ord[a] == x);
            assert(ord.contains(x));
        }
    }
    assert(ord.to_set() =~= ks.to_set());
}

/// The events that answer `query`: those that match it and lie in its time
/// window (from `min_timestamp_ns`, when given), newest first with ties in
/// the order they were gathered, at most `limit` of them.
pub fn select_observe_events(events: Vec<EventEnvelope>, query: &ObserveQuery, min_timestamp_ns: Option<u64>,
    limit: usize) -> (r: Vec<EventEnvelope>)
    ensures
        exists|ord: Seq<int>| {
            &&& newest_first(events@, ord, *query, min_timestamp_ns)
            &&& r.len() == if ord.len() < limit { ord.len() } else { limit as nat }
            &&& forall|k: int| 0 <= k < r.len() ==> r@[k] == events@[#[trigger] ord[k]]
        },
{
    let ghost orig = events@;
    let ghost ks = kept_indices(orig, *query, min_timestamp_ns);
    let mut pairs = sort_keys(&events, query, min_timestamp_ns);
    let ghost init = pairs@;
    sort_pairs(&mut pairs);
    proof {
        assert(orig.len() == events.len());
        assert(usize::MAX <= u64::MAX);
        lemma_kept_indices_bounds(orig, *query, min_timestamp_ns);
        lemma_sorted_pairs(orig, ks, init, pairs@);
    }
    let ghost ord = pairs@.map_values(|p: (u64, u64)| p.1 as int);
    let n = events.len();
    let mut events = events;
    let mut slots: Vec<Option<EventEnvelope>> = Vec::new();
    while events.len() > 0
        invariant
            n == orig.len(),
            events@ == orig.take(n - slots.len()),
            slots.len() <= n,
            forall|j: int| 0 <= j < slots.len() ==> #[trigger] slots@[j] == Some(orig[n - 1 - j]),
        decreases events.len(),
    {
        let ghost before = events@;
        let e = events.pop();
        match e {
            Some(e) => {
                slots.push(Some(e));
                assert(events@ =~= orig.take(n - slots.len()));
            },
            None => {},
        }
    }
    let m = if pairs.len() < limit { pairs.len() } else { limit };
    let mut out: Vec<EventEnvelope> = Vec::new();
    let mut k: usize = 0;
    while k < m
        invariant
            k <= m,
            m <= pairs.len(),
            n == orig.len(),
            slots.len() == n,
            ord == pairs@.map_values(|p: (u64, u64)| p.1 as int),
            pairs@.no_duplicates(),
            forall|a: int| 0 <= a < pairs@.len() ==> 0 <= (#[trigger] pairs@[a]).1 < orig.len()
                && pairs@[a] == pair_of(orig, pairs@[a].1 as int),
            out.len() == k,
            forall|c: int| 0 <= c < k ==> out@[c] == orig[#[trigger] ord[c]],
            forall|c: int| k <= c < pairs.len() ==> #[trigger] slots@[n - 1 - ord[c]] == Some(orig[ord[c]]),
        decreases m - k,
    {
        let idx = pairs[k].1 as usize;
        let j = n - 1 - idx;
        assert(ord[k as int] == idx);
        let taken = slots[j].take();
        proof {
            assert forall|c: int| k + 1 <= c < pairs.len() implies #[trigger] slots@[n - 1 - ord[c]] == Some(orig[ord[c]]) by {
                assert(pairs@[c] != pairs@[k as int]);
                assert(pairs@[c] == pair_of(orig, pairs@[c].1 as int));
                assert(ord[c] != ord[k as int]);
            }
        }
        match taken {
            Some(e) => {
                out.push(e);
            },
            None => {
                assert(false);
            },
        }
        k = k + 1;
    }
    assert(newest_first(orig, ord, *query, min_timestamp_ns));
    out
}

/// Whether a query asks for events of type `name` (every type when it names none).
pub fn observe_includes(query: &ObserveQuery, name: &str) -> (r: bool)
    ensures
        r == match query.event_type {
            Some(t) => t@ == name@,
            None => true,
        },
{
    match &query.event_type {
        Some(t) => str_eq(t.as_str(), name),
        None => true,
    }
}


proof fn lemma_kept_indices_are_kept(events: Seq<EventEnvelope>, q: ObserveQuery, min_ts: Option<u64>)
    ensures
        forall|m: int| 0 <= m < kept_indices(events, q, min_ts).len()
            ==> kept(events[#[trigger] kept_indices(events, q, min_ts)[m]], q, min_ts),
    decreases events.len(),
{
    if events.len() > 0 {
        lemma_kept_indices_are_kept(events.drop_last(), q, min_ts);
        lemma_kept_indices_bounds(events.drop_last(), q, min_ts);
        let p = kept_indices(events.drop_last(), q, min_ts);
        let k = kept_indices(events, q, min_ts);
        assert forall|m: int| 0 <= m < k.len() implies kept(events[#[trigger] k[m]], q, min_ts) by {
            if m < p.len() {
                assert(k[m] == p[m]);
                assert(events.drop_last()[p[m]] == events[p[m]]);
            }
        }
    }
}

/// What a query returns answers it: no more events than its limit, each
/// matching the query and lying in its window, newest first.
pub proof fn lemma_selection_answers_query(events: Seq<EventEnvelope>, ord: Seq<int>, q: ObserveQuery,
    min_ts: Option<u64>, limit: usize, r: Seq<EventEnvelope>)
    requires
        newest_first(events, ord, q, min_ts),
        r.len() == if ord.len() < limit { ord.len() } else { limit as nat },
        forall|k: int| 0 <= k < r.len() ==> r[k] == events[#[trigger] ord[k]],
    ensures
        r.len() <= limit,
        forall|k: int| 0 <= k < r.len() ==> kept(#[trigger] r[k], q, min_ts),
        forall|a: int, b: int| 0 <= a < b < r.len() ==> timestamp_key(#[trigger] r[a]) >= timestamp_key(#[trigger] r[b]),
{
    let ks = kept_indices(events, q, min_ts);
    lemma_kept_indices_are_kept(events, q, min_ts);
    assert forall|k: int| 0 <= k < r.len() implies kept(#[trigger] r[k], q, min_ts) by {
        assert(ord.to_set().contains(ord[k]));
        assert(ks.to_set().contains(ord[k]));
        let m = choose|m: int| 0 <= m < ks.len() && ks[m] == ord[k];
        assert(kept(events[ks[m]], q, min_ts));
    }
    assert forall|a: int, b: int| 0 <= a < b < r.len() implies timestamp_key(#[trigger] r[a]) >= timestamp_key(#[trigger] r[b]) by {
        assert(comes_before(events, ord[a], ord[b]));
    }
}

} // verus!
