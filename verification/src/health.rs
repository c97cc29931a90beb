//! Backend health tracking: consecutive probe results turn a backend healthy
//! or unhealthy once a threshold is reached.
use vstd::prelude::*;
use core::time::Duration;
use crate::text::str_eq;

verus! {

broadcast use vstd::string::group_string_axioms;

/// Health state of a single backend.
#[derive(Debug, Clone, Copy, PartialEq, Eq, Structural)]
pub enum HealthState {
    Unknown,
    Healthy,
    Unhealthy,
}

/// Configuration for a health check probe.
#[derive(Debug)]
pub struct ProbeConfig {
    pub protocol: String,
    pub interval: Duration,
    pub timeout: Duration,
    pub healthy_threshold: u32,
    pub unhealthy_threshold: u32,
    pub target_port: Option<u16>,
}

impl Clone for ProbeConfig {
    fn clone(&self) -> (r: Self)
        ensures
            r == *self,
    {
        ProbeConfig {
            protocol: self.protocol.clone(),
            interval: self.interval,
            timeout: self.timeout,
            healthy_threshold: self.healthy_threshold,
            unhealthy_threshold: self.unhealthy_threshold,
            target_port: self.target_port,
        }
    }
}

/// Identifies a backend to probe.
#[derive(Debug)]
pub struct BackendTarget {
    pub service_id: String,
    pub backend_id: String,
    pub address: String,
    pub port: u16,
}

impl Clone for BackendTarget {
    fn clone(&self) -> (r: Self)
        ensures
            r == *self,
    {
        BackendTarget {
            service_id: self.service_id.clone(),
            backend_id: self.backend_id.clone(),
            address: self.address.clone(),
            port: self.port,
        }
    }
}

/// What identifies a backend target: its service, backend, address and port.
pub type TargetKey = (Seq<char>, Seq<char>, Seq<char>, u16);

impl BackendTarget {
    /// The identity of this target.
    pub open spec fn key(&self) -> TargetKey {
        (self.service_id@, self.backend_id@, self.address@, self.port)
    }

    /// Whether `self` and `other` name the same backend.
    pub fn same_as(&self, other: &BackendTarget) -> (r: bool)
        ensures
            r == (self.key() == other.key()),
    {
        self.port == other.port && str_eq(self.service_id.as_str(), other.service_id.as_str())
            && str_eq(self.backend_id.as_str(), other.backend_id.as_str())
            && str_eq(self.address.as_str(), other.address.as_str())
    }
}

/// Tracks health state for a single backend.
#[derive(Debug, Clone, Copy)]
pub struct BackendHealthTracker {
    pub state: HealthState,
    pub consecutive_successes: u32,
    pub consecutive_failures: u32,
    pub healthy_threshold: u32,
    pub unhealthy_threshold: u32,
}

/// The tracker after one probe result.
pub open spec fn record_spec(t: BackendHealthTracker, success: bool) -> BackendHealthTracker {
    if success {
        let n = (t.consecutive_successes + 1) as u32;
        BackendHealthTracker {
            state: if n >= t.healthy_threshold { HealthState::Healthy } else { t.state },
            consecutive_successes: n,
            consecutive_failures: 0,
            ..t
        }
    } else {
        let n = (t.consecutive_failures + 1) as u32;
        BackendHealthTracker {
            state: if n >= t.unhealthy_threshold { HealthState::Unhealthy } else { t.state },
            consecutive_successes: 0,
            consecutive_failures: n,
            ..t
        }
    }
}

/// The tracker after `n` successful probes in a row.
pub open spec fn after_successes(t: BackendHealthTracker, n: nat) -> BackendHealthTracker
    decreases n,
{
    if n == 0 { t } else { record_spec(after_successes(t, (n - 1) as nat), true) }
}

/// The tracker after `n` failed probes in a row.
pub open spec fn after_failures(t: BackendHealthTracker, n: nat) -> BackendHealthTracker
    decreases n,
{
    if n == 0 { t } else { record_spec(after_failures(t, (n - 1) as nat), false) }
}

impl BackendHealthTracker {
    /// A tracker in the unknown state with no probe history.
    pub fn new(healthy_threshold: u32, unhealthy_threshold: u32) -> (r: Self)
        ensures
            r.state == HealthState::Unknown,
            r.consecutive_successes == 0,
            r.consecutive_failures == 0,
            r.healthy_threshold == healthy_threshold,
            r.unhealthy_threshold == unhealthy_threshold,
    {
        BackendHealthTracker {
            state: HealthState::Unknown,
            consecutive_successes: 0,
            consecutive_failures: 0,
            healthy_threshold,
            unhealthy_threshold,
        }
    }

    /// Record a probe result; returns whether the health state changed.
    pub fn record(&mut self, success: bool) -> (changed: bool)
        requires
            old(self).consecutive_successes < u32::MAX,
            old(self).consecutive_failures < u32::MAX,
        ensures
            *final(self) == record_spec(*old(self), success),
            changed == (final(self).state != old(self).state),
    {
        let old_state = self.state;
        if success {
            self.consecutive_successes += 1;
            self.consecutive_failures = 0;
            if self.consecutive_successes >= self.healthy_threshold {
                self.state = HealthState::Healthy;
            }
        } else {
            self.consecutive_failures += 1;
            self.consecutive_successes = 0;
            if self.consecutive_failures >= self.unhealthy_threshold {
                self.state = HealthState::Unhealthy;
            }
        }
        self.state != old_state
    }
}

/// Once `healthy_threshold` probes in a row have succeeded (and at least one
/// has), the backend is healthy, whatever came before; likewise failures and
/// the unhealthy threshold.
pub proof fn lemma_threshold_reached(t: BackendHealthTracker, n: nat)
    requires
        n >= 1,
        t.consecutive_successes + n <= u32::MAX,
        t.consecutive_failures + n <= u32::MAX,
    ensures
        n >= t.healthy_threshold ==> after_successes(t, n).state == HealthState::Healthy,
        n >= t.unhealthy_threshold ==> after_failures(t, n).state == HealthState::Unhealthy,
        after_successes(t, n).consecutive_successes == t.consecutive_successes + n,
        after_failures(t, n).consecutive_failures == t.consecutive_failures + n,
        after_successes(t, n).consecutive_failures == 0,
        after_failures(t, n).consecutive_successes == 0,
    decreases n,
{
    if n > 1 {
        lemma_threshold_reached(t, (n - 1) as nat);
    } else {
        assert(after_successes(t, 0) == t);
        assert(after_failures(t, 0) == t);
    }
    lemma_thresholds_kept(t, (n - 1) as nat);
}

/// Probing never changes a tracker's thresholds.
pub proof fn lemma_thresholds_kept(t: BackendHealthTracker, n: nat)
    ensures
        after_successes(t, n).healthy_threshold == t.healthy_threshold,
        after_failures(t, n).unhealthy_threshold == t.unhealthy_threshold,
        after_successes(t, n).unhealthy_threshold == t.unhealthy_threshold,
        after_failures(t, n).healthy_threshold == t.healthy_threshold,
    decreases n,
{
    if n > 0 {
        lemma_thresholds_kept(t, (n - 1) as nat);
    }
}

/// A success never makes a healthy backend anything else, and a failure never
/// makes an unhealthy backend anything else.
pub proof fn lemma_state_sticks(t: BackendHealthTracker)
    ensures
        t.state == HealthState::Healthy ==> record_spec(t, true).state == HealthState::Healthy,
        t.state == HealthState::Unhealthy ==> record_spec(t, false).state == HealthState::Unhealthy,
{
}


/// Whether the entries of `s` carry pairwise different keys.
pub open spec fn distinct_keys(s: Seq<(TargetKey, BackendHealthTracker)>) -> bool {
    forall|i: int, j: int| 0 <= i < j < s.len() ==> #[trigger] s[i].0 != #[trigger] s[j].0
}

/// Position of the entry for `k` in `s`, if there is one.
pub open spec fn key_index(s: Seq<(TargetKey, BackendHealthTracker)>, k: TargetKey) -> Option<int> {
    if exists|i: int| 0 <= i < s.len() && #[trigger] s[i].0 == k {
        Some(choose|i: int| 0 <= i < s.len() && #[trigger] s[i].0 == k)
    } else {
        None
    }
}

/// The state recorded in `s` for key `k`; unknown when `s` has no entry for it.
pub open spec fn state_in(s: Seq<(TargetKey, BackendHealthTracker)>, k: TargetKey) -> HealthState {
    match key_index(s, k) {
        Some(i) => s[i].1.state,
        None => HealthState::Unknown,
    }
}

/// Keeping only the entries whose key is in `keys` keeps the state of those
/// keys and forgets the state of every other key.
pub proof fn lemma_state_after_filter(s: Seq<(TargetKey, BackendHealthTracker)>, keys: Seq<TargetKey>, k: TargetKey)
    requires
        distinct_keys(s),
    ensures
        state_in(s.filter(|e: (TargetKey, BackendHealthTracker)| keys.contains(e.0)), k)
            == (if keys.contains(k) { state_in(s, k) } else { HealthState::Unknown }),
{
    let pred = |e: (TargetKey, BackendHealthTracker)| keys.contains(e.0);
    let f = s.filter(pred);
    lemma_filter_keeps_distinct(s, pred);
    s.filter_lemma(pred);
    if exists|i: int| 0 <= i < s.len() && #[trigger] s[i].0 == k {
        let i = choose|i: int| 0 <= i < s.len() && #[trigger] s[i].0 == k;
        if keys.contains(k) {
            s.lemma_filter_contains(pred, i);
            let j = choose|j: int| 0 <= j < f.len() && f[j] == s[i];
            assert(f[j].0 == k);
            let j2 = choose|j2: int| 0 <= j2 < f.len() && #[trigger] f[j2].0 == k;
            if j2 != j {
                if j2 < j {
                    assert(f[j2].0 != f[j].0);
                } else {
                    assert(f[j].0 != f[j2].0);
                }
            }
            let i2 = choose|i2: int| 0 <= i2 < s.len() && #[trigger] s[i2].0 == k;
            assert(i2 == i);
        } else {
            assert forall|j: int| 0 <= j < f.len() implies #[trigger] f[j].0 != k by {
                assert(pred(f[j]));
            }
        }
    } else {
        assert forall|j: int| 0 <= j < f.len() implies #[trigger] f[j].0 != k by {
            assert(f.contains(f[j]));
            s.lemma_filter_contains_rev(pred, f[j]);
        }
    }
}

/// The trackers in `v`, each under the key of its backend.
pub open spec fn entries_of(v: Seq<(BackendTarget, BackendHealthTracker)>) -> Seq<(TargetKey, BackendHealthTracker)> {
    v.map_values(|e: (BackendTarget, BackendHealthTracker)| (e.0.key(), e.1))
}

/// The probe a backend gets: a TCP connect, or none (protocols that are not
/// probed count as healthy).
#[derive(Debug)]
pub enum ProbeAction {
    TcpConnect { address: String, port: u16, timeout: Duration },
    AssumeHealthy,
}

/// The probe owed to `target` under `config`.
pub fn probe_action(target: &BackendTarget, config: &ProbeConfig) -> (r: ProbeAction)
    ensures
        config.protocol@ == "tcp"@ ==> (r matches ProbeAction::TcpConnect { address, port, timeout }
            && address@ == target.address@ && timeout == config.timeout
            && port == (match config.target_port { Some(p) => p, None => target.port })),
        config.protocol@ != "tcp"@ ==> r is AssumeHealthy,
{
    let probe_port = match config.target_port {
        Some(p) => p,
        None => target.port,
    };
    if str_eq(config.protocol.as_str(), "tcp") {
        ProbeAction::TcpConnect { address: target.address.clone(), port: probe_port, timeout: config.timeout }
    } else {
        ProbeAction::AssumeHealthy
    }
}

/// The health check executor: probe state for every backend it has seen.
pub struct HealthCheckExecutor {
    trackers: Vec<(BackendTarget, BackendHealthTracker)>,
}

impl HealthCheckExecutor {
    /// The trackers, each under the key of its backend.
    pub closed spec fn entries(&self) -> Seq<(TargetKey, BackendHealthTracker)> {
        entries_of(self.trackers@)
    }

    #[verifier::type_invariant]
    closed spec fn keys_are_distinct(&self) -> bool {
        distinct_keys(self.entries())
    }

    /// The recorded state of the backend with key `k`.
    pub open spec fn state_of(&self, k: TargetKey) -> HealthState {
        state_in(self.entries(), k)
    }

    /// No tracker has run a counter up to its limit.
    pub open spec fn counters_below_limit(&self) -> bool {
        forall|i: int| 0 <= i < self.entries().len() ==>
            (#[trigger] self.entries()[i]).1.consecutive_successes < u32::MAX
            && self.entries()[i].1.consecutive_failures < u32::MAX
    }

    /// Whether every tracker can still count one more probe.
    pub fn can_record(&self) -> (r: bool)
        ensures
            r == self.counters_below_limit(),
    {
        let mut i: usize = 0;
        while i < self.trackers.len()
            invariant
                i <= self.trackers.len(),
                self.entries().len() == self.trackers.len(),
                forall|j: int| 0 <= j < i ==> (#[trigger] self.entries()[j]).1.consecutive_successes < u32::MAX
                    && self.entries()[j].1.consecutive_failures < u32::MAX,
            decreases self.trackers.len() - i,
        {
            let t = &self.trackers[i].1;
            assert(self.entries()[i as int].1 == self.trackers@[i as int].1);
            if t.consecutive_successes == u32::MAX || t.consecutive_failures == u32::MAX {
                return false;
            }
            i = i + 1;
        }
        true
    }

    /// An executor that has seen no backend.
    pub fn new() -> (r: Self)
        ensures
            r.entries() == Seq::<(TargetKey, BackendHealthTracker)>::empty(),
            distinct_keys(r.entries()),
    {
        let r = HealthCheckExecutor { trackers: Vec::new() };
        assert(r.entries() =~= Seq::<(TargetKey, BackendHealthTracker)>::empty());
        r
    }

    fn find(&self, target: &BackendTarget) -> (r: Option<usize>)
        ensures
            r matches Some(i) ==> key_index(self.entries(), target.key()) == Some(i as int),
            r is None ==> key_index(self.entries(), target.key()) is None,
            r matches Some(i) ==> i < self.entries().len() && self.entries()[i as int].0 == target.key(),
    {
        proof { use_type_invariant(self); }
        let mut i: usize = 0;
        while i < self.trackers.len()
            invariant
                i <= self.trackers.len(),
                self.entries().len() == self.trackers.len(),
                distinct_keys(self.entries()),
                forall|j: int| 0 <= j < i ==> self.entries()[j].0 != target.key(),
            decreases self.trackers.len() - i,
        {
            if self.trackers[i].0.same_as(target) {
                assert(self.entries()[i as int].0 == target.key());
                let ghost k = choose|j: int| 0 <= j < self.entries().len() && #[trigger] self.entries()[j].0 == target.key();
                assert(k == i) by {
                    if k != i {
                        if k < i {
                        } else {
                            assert(distinct_keys(self.entries()));
                            assert(self.entries()[i as int].0 != self.entries()[k].0);
                        }
                    }
                }
                return Some(i);
            }
            i = i + 1;
        }
        assert(!exists|j: int| 0 <= j < self.entries().len() && #[trigger] self.entries()[j].0 == target.key());
        None
    }

    /// The current health state of a backend; unknown if it was never probed.
    pub fn get_state(&self, target: &BackendTarget) -> (r: HealthState)
        ensures
            r == (match key_index(self.entries(), target.key()) {
                Some(i) => self.entries()[i].1.state,
                None => HealthState::Unknown,
            }),
            r == self.state_of(target.key()),
            distinct_keys(self.entries()),
    {
        proof { use_type_invariant(self); }
        match self.find(target) {
            Some(i) => {
                assert(self.entries()[i as int].1 == self.trackers@[i as int].1);
                self.trackers[i].1.state
            }
            None => HealthState::Unknown,
        }
    }

    /// Forget the backends that are not in `active_backends`.
    pub fn prune(&mut self, active_backends: &[BackendTarget])
        ensures
            final(self).entries() == old(self).entries().filter(
                |e: (TargetKey, BackendHealthTracker)| active_backends@.map_values(|t: BackendTarget| t.key()).contains(e.0)),
            distinct_keys(final(self).entries()),
            pruned(*old(self), *final(self), active_backends@),
    {
        proof { use_type_invariant(&*self); }
        let ghost keys = active_backends@.map_values(|t: BackendTarget| t.key());
        let ghost pred = |e: (TargetKey, BackendHealthTracker)| keys.contains(e.0);
        let ghost old_entries = self.entries();
        let mut kept: Vec<(BackendTarget, BackendHealthTracker)> = Vec::new();
        let mut i: usize = 0;
        while i < self.trackers.len()
            invariant
                i <= self.trackers.len(),
                self.entries() == old_entries,
                distinct_keys(old_entries),
                keys == active_backends@.map_values(|t: BackendTarget| t.key()),
                pred == (|e: (TargetKey, BackendHealthTracker)| keys.contains(e.0)),
                entries_of(kept@) == old_entries.take(i as int).filter(pred),
            decreases self.trackers.len() - i,
        {
            let mut keep = false;
            let mut j: usize = 0;
            while j < active_backends.len()
                invariant
                    j <= active_backends.len(),
                    i < self.trackers.len(),
                    keys == active_backends@.map_values(|t: BackendTarget| t.key()),
                    keep == exists|m: int| 0 <= m < j && #[trigger] keys[m] == self.trackers@[i as int].0.key(),
                decreases active_backends.len() - j,
            {
                assert(keys[j as int] == active_backends@[j as int].key());
                if active_backends[j].same_as(&self.trackers[i].0) {
                    keep = true;
                }
                j = j + 1;
            }
            assert(old_entries[i as int].0 == self.trackers@[i as int].0.key());
            assert(keep == keys.contains(old_entries[i as int].0));
            let ghost before = kept@;
            if keep {
                kept.push((self.trackers[i].0.clone(), self.trackers[i].1));
                assert(entries_of(kept@) =~= entries_of(before).push(old_entries[i as int]));
            }
            assert(old_entries.take(i + 1).drop_last() =~= old_entries.take(i as int));
            proof {
                old_entries.take(i as int).lemma_filter_push(old_entries[i as int], pred);
                assert(old_entries.take(i + 1) =~= old_entries.take(i as int).push(old_entries[i as int]));
            }
            assert(pred(old_entries[i as int]) == keep);
            assert(old_entries.take(i + 1).filter(pred) == (if keep {
                old_entries.take(i as int).filter(pred).push(old_entries[i as int])
            } else {
                old_entries.take(i as int).filter(pred)
            }));
            assert(entries_of(kept@) =~= old_entries.take(i + 1).filter(pred));
            i = i + 1;
        }
        assert(old_entries.take(i as int) =~= old_entries);
        proof {
            lemma_filter_keeps_distinct(old_entries, pred);
            assert forall|k: TargetKey| #[trigger] state_in(old_entries.filter(pred), k) == (if keys.contains(k) {
                state_in(old_entries, k)
            } else {
                HealthState::Unknown
            }) by {
                lemma_state_after_filter(old_entries, keys, k);
            }
        }
        self.trackers = kept;
    }

    /// Record a probe result for `target`, starting a tracker with the
    /// configured thresholds if it has none; returns the new state when it changed.
    pub fn record_probe(&mut self, target: &BackendTarget, config: &ProbeConfig, success: bool)
        -> (r: Option<HealthState>)
        requires
            old(self).counters_below_limit(),
        ensures
            ({
                let k = target.key();
                let prev = match key_index(old(self).entries(), k) {
                    Some(i) => old(self).entries()[i].1,
                    None => BackendHealthTracker {
                        state: HealthState::Unknown,
                        consecutive_successes: 0,
                        consecutive_failures: 0,
                        healthy_threshold: config.healthy_threshold,
                        unhealthy_threshold: config.unhealthy_threshold,
                    },
                };
                let next = record_spec(prev, success);
                &&& final(self).entries() == (match key_index(old(self).entries(), k) {
                        Some(i) => old(self).entries().update(i, (k, next)),
                        None => old(self).entries().push((k, next)),
                    })
                &&& r == (if next.state != prev.state { Some(next.state) } else { None::<HealthState> })
            }),
            distinct_keys(final(self).entries()),
    {
        proof { use_type_invariant(&*self); }
        let ghost old_entries = self.entries();
        match self.find(target) {
            Some(i) => {
                let mut tracker = self.trackers[i].1;
                let changed = tracker.record(success);
                let key = self.trackers[i].0.clone();
                let state = tracker.state;
                let mut v: Vec<(BackendTarget, BackendHealthTracker)> = Vec::new();
                core::mem::swap(&mut v, &mut self.trackers);
                assert(entries_of(v@) == old_entries);
                v.set(i, (key, tracker));
                proof {
                    assert(entries_of(v@) =~= old_entries.update(i as int, (target.key(), tracker)));
                    assert forall|a: int, b: int| 0 <= a < b < entries_of(v@).len() implies
                        #[trigger] entries_of(v@)[a].0 != #[trigger] entries_of(v@)[b].0 by {
                        assert(old_entries[a].0 != old_entries[b].0);
                    }
                }
                self.trackers = v;
                if changed { Some(state) } else { None }
            }
            None => {
                let mut tracker = BackendHealthTracker::new(config.healthy_threshold, config.unhealthy_threshold);
                let changed = tracker.record(success);
                let state = tracker.state;
                let mut v: Vec<(BackendTarget, BackendHealthTracker)> = Vec::new();
                core::mem::swap(&mut v, &mut self.trackers);
                assert(entries_of(v@) == old_entries);
                v.push((target.clone(), tracker));
                proof {
                    assert(entries_of(v@) =~= old_entries.push((target.key(), tracker)));
                    assert forall|a: int, b: int| 0 <= a < b < entries_of(v@).len() implies
                        #[trigger] entries_of(v@)[a].0 != #[trigger] entries_of(v@)[b].0 by {
                        if b == old_entries.len() {
                            assert(old_entries[a].0 != target.key());
                        } else {
                            assert(old_entries[a].0 != old_entries[b].0);
                        }
                    }
                }
                self.trackers = v;
                if changed { Some(state) } else { None }
            }
        }
    }
}

/// The keys of `targets`.
pub open spec fn keys_of(targets: Seq<BackendTarget>) -> Seq<TargetKey> {
    targets.map_values(|t: BackendTarget| t.key())
}

/// What `prune` leaves: the state of each backend in `active`, unknown for
/// every other backend.
pub open spec fn pruned(before: HealthCheckExecutor, after: HealthCheckExecutor, active: Seq<BackendTarget>) -> bool {
    forall|k: TargetKey| #[trigger] after.state_of(k) == (if keys_of(active).contains(k) {
        before.state_of(k)
    } else {
        HealthState::Unknown
    })
}

/// Pruning to `a` and then to `b` leaves every backend in the state that
/// one prune to the backends in both leaves; in particular pruning twice to
/// the same backends is the same as pruning once.
pub proof fn lemma_prune_twice(
    before: HealthCheckExecutor,
    mid: HealthCheckExecutor,
    after: HealthCheckExecutor,
    a: Seq<BackendTarget>,
    b: Seq<BackendTarget>,
    k: TargetKey,
)
    requires
        pruned(before, mid, a),
        pruned(mid, after, b),
    ensures
        after.state_of(k) == (if keys_of(a).contains(k) && keys_of(b).contains(k) {
            before.state_of(k)
        } else {
            HealthState::Unknown
        }),
        a == b ==> after.state_of(k) == mid.state_of(k),
{
    assert(mid.state_of(k) == (if keys_of(a).contains(k) { before.state_of(k) } else { HealthState::Unknown }));
    assert(after.state_of(k) == (if keys_of(b).contains(k) { mid.state_of(k) } else { HealthState::Unknown }));
}

proof fn lemma_filter_keeps_distinct(
    s: Seq<(TargetKey, BackendHealthTracker)>,
    pred: spec_fn((TargetKey, BackendHealthTracker)) -> bool,
)
    requires
        distinct_keys(s),
    ensures
        distinct_keys(s.filter(pred)),
    decreases s.len(),
{
    reveal(Seq::filter);
    if s.len() > 0 {
        let t = s.drop_last();
        assert forall|i: int, j: int| 0 <= i < j < t.len() implies #[trigger] t[i].0 != #[trigger] t[j].0 by {
            assert(s[i].0 != s[j].0);
        }
        lemma_filter_keeps_distinct(t, pred);
        if pred(s.last()) {
            let f = t.filter(pred);
            let g = s.filter(pred);
            assert(s =~= t.push(s.last()));
            t.lemma_filter_push(s.last(), pred);
            assert(g =~= f.push(s.last()));
            assert forall|i: int, j: int| 0 <= i < j < g.len() implies #[trigger] g[i].0 != #[trigger] g[j].0 by {
                if j == g.len() - 1 {
                    if g[i].0 == s.last().0 {
                        assert(f.contains(g[i]));
                        t.lemma_filter_contains_rev(pred, g[i]);
                        let m = choose|m: int| 0 <= m < t.len() && t[m] == g[i];
                        assert(s[m].0 != s[s.len() - 1].0);
                    }
                } else {
                    assert(g[i] == f[i] && g[j] == f[j]);
                }
            }
        }
    }
}

} // verus!
