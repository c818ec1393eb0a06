//! Host discovery: liveness of many hosts without a full port scan.
use vstd::prelude::*;
use crate::error::ScanError;
use crate::address::{is_local_segment, local_segment_spec};
use crate::network::HostTarget;
use crate::scanner::{ConcurrencyGate, LivenessCheck};
use crate::types::HostInfo;
use crate::utils::TimeSpan;

verus! {

/// How host liveness is tested.
#[derive(Debug, Clone, Copy, PartialEq, Eq, Structural)]
pub enum DiscoveryMethod {
    /// TCP probes to a short list of ports.
    Ping,
    /// TCP probes to a longer list of ports.
    TcpSyn,
    /// Only for addresses on a local segment; others are left out entirely.
    Arp,
}

pub open spec fn discovery_ports_spec(method: DiscoveryMethod) -> Seq<u16> {
    match method {
        DiscoveryMethod::TcpSyn => seq![80u16, 443, 22, 21, 25, 53, 110, 143, 993, 995],
        _ => seq![80u16, 443, 22, 53],
    }
}

/// The targets that a method covers, in order.
pub open spec fn covered(method: DiscoveryMethod, ts: Seq<HostTarget>) -> Seq<HostTarget>
    decreases ts.len(),
{
    if ts.len() == 0 {
        Seq::empty()
    } else if method != DiscoveryMethod::Arp || local_segment_spec(ts.last().addr) {
        covered(method, ts.drop_last()).push(ts.last())
    } else {
        covered(method, ts.drop_last())
    }
}

/// The targets that a method leaves out, in order.
pub open spec fn left_out(method: DiscoveryMethod, ts: Seq<HostTarget>) -> Seq<HostTarget>
    decreases ts.len(),
{
    if ts.len() == 0 {
        Seq::empty()
    } else if method != DiscoveryMethod::Arp || local_segment_spec(ts.last().addr) {
        left_out(method, ts.drop_last())
    } else {
        left_out(method, ts.drop_last()).push(ts.last())
    }
}

/// Discovery configuration.
pub struct HostDiscoverer {
    pub max_parallel: usize,
    pub timeout: TimeSpan,
}

impl HostDiscoverer {
    pub fn new() -> (r: HostDiscoverer)
        ensures
            r.max_parallel == 50 && r.timeout.millis == 2000,
    {
        HostDiscoverer { max_parallel: 50, timeout: TimeSpan::from_secs(2) }
    }

    pub fn with_max_parallel(self, max_parallel: usize) -> (r: HostDiscoverer)
        ensures
            r.max_parallel == max_parallel && r.timeout == self.timeout,
    {
        HostDiscoverer { max_parallel, ..self }
    }

    pub fn with_timeout(self, timeout: TimeSpan) -> (r: HostDiscoverer)
        ensures
            r.max_parallel == self.max_parallel && r.timeout == timeout,
    {
        HostDiscoverer { timeout, ..self }
    }

    /// The pool that bounds the hosts probed at once.
    pub fn gate(&self) -> (r: Result<ConcurrencyGate, ScanError>)
        ensures
            self.max_parallel == 0 ==> r == Err::<ConcurrencyGate, ScanError>(
                ScanError::ConfigError,
            ),
            self.max_parallel > 0 ==> (r matches Ok(g) && g.wf() && g.limit()
                == self.max_parallel && g.held() == 0),
    {
        ConcurrencyGate::new(self.max_parallel)
    }

    /// Rejects a configuration that cannot run: zero parallelism.
    pub fn check_config(&self) -> (r: Result<(), ScanError>)
        ensures
            self.max_parallel == 0 <==> r == Err::<(), ScanError>(ScanError::ConfigError),
            self.max_parallel > 0 <==> r is Ok,
    {
        if self.max_parallel == 0 {
            return Err(ScanError::ConfigError);
        }
        Ok(())
    }

    /// The sweep over `count` hosts, at most `max_parallel` at once.
    pub fn sweep(&self, count: usize) -> (r: Result<DiscoverySweep, ScanError>)
        ensures
            self.max_parallel == 0 ==> r == Err::<DiscoverySweep, ScanError>(
                ScanError::ConfigError,
            ),
            self.max_parallel > 0 ==> (r matches Ok(s) && s.wf() && s.count() == count
                && s.launched() == 0 && s.pool().limit() == self.max_parallel),
    {
        DiscoverySweep::new(count, self.max_parallel)
    }

    /// The liveness check of one host under a method.
    pub fn liveness(&self, method: DiscoveryMethod) -> (r: LivenessCheck)
        ensures
            r.wf() && r.ports_view() == discovery_ports_spec(method) && r.tried() == 0
                && !r.alive_spec(),
    {
        match method {
            DiscoveryMethod::TcpSyn => LivenessCheck::new(
                vec![80u16, 443, 22, 21, 25, 53, 110, 143, 993, 995],
            ),
            _ => LivenessCheck::new(vec![80u16, 443, 22, 53]),
        }
    }

    /// Splits the targets into those the method covers and those it leaves
    /// out; only link-layer discovery leaves any out.
    pub fn select_targets(&self, method: DiscoveryMethod, targets: Vec<HostTarget>) -> (r: (
        Vec<HostTarget>,
        Vec<HostTarget>,
    ))
        ensures
            r.0@ == covered(method, targets@),
            r.1@ == left_out(method, targets@),
    {
        let ghost ts = targets@;
        let mut pending = targets;
        let n = pending.len();
        let mut rev: Vec<HostTarget> = Vec::new();
        while pending.len() > 0
            invariant
                pending@ == ts.take(pending@.len() as int),
                rev@.len() + pending@.len() == ts.len(),
                ts.len() == n,
                forall|k: int| 0 <= k < rev@.len() ==> #[trigger] rev@[k] == ts[ts.len() - 1 - k],
            decreases pending.len(),
        {
            let t = pending.pop().unwrap();
            rev.push(t);
            assert(pending@ =~= ts.take(pending@.len() as int));
        }
        let mut kept: Vec<HostTarget> = Vec::new();
        let mut skipped: Vec<HostTarget> = Vec::new();
        let mut i: usize = 0;
        while rev.len() > 0
            invariant
                i + rev@.len() == ts.len(),
                ts.len() == n,
                forall|k: int| 0 <= k < rev@.len() ==> #[trigger] rev@[k] == ts[ts.len() - 1 - k],
                kept@ == covered(method, ts.take(i as int)),
                skipped@ == left_out(method, ts.take(i as int)),
            decreases rev.len(),
        {
            let t = rev.pop().unwrap();
            assert(t == ts[i as int]);
            assert(ts.take(i + 1).drop_last() =~= ts.take(i as int));
            if method != DiscoveryMethod::Arp || is_local_segment(&t.addr) {
                kept.push(t);
            } else {
                skipped.push(t);
            }
            i += 1;
        }
        assert(ts.take(i as int) =~= ts);
        (kept, skipped)
    }

    /// The record of one probed host: its response time is the time to its
    /// first answer, and only a live host has one.
    pub fn discovered_host(target: HostTarget, alive: bool, elapsed_micros: u64, scan_time: u64) -> (r: HostInfo)
        ensures
            r.addr == target.addr && r.hostname == target.hostname && r.is_up == alive,
            r.scan_time == scan_time,
            r.ports@.len() == 0,
            r.response_time == if alive {
                Some(elapsed_micros)
            } else {
                None
            },
    {
        let h = HostInfo::new(target.addr, scan_time);
        HostInfo {
            hostname: target.hostname,
            is_up: alive,
            response_time: if alive {
                Some(elapsed_micros)
            } else {
                None
            },
            ..h
        }
    }
}

impl Default for HostDiscoverer {
    fn default() -> (r: HostDiscoverer)
        ensures
            r.max_parallel == 50 && r.timeout.millis == 2000,
    {
        HostDiscoverer::new()
    }
}

/// What a discovery sweep asks of its driver next.
#[derive(Debug, Clone, Copy, PartialEq, Eq, Structural)]
pub enum DiscoveryAction {
    /// Start checking the host at this index; a permit is free.
    Launch(usize),
    /// Wait for one check in flight to end.
    AwaitOne,
    /// Every host has been checked and every check has ended.
    Finished,
}

/// The liveness checks of a list of hosts: which host goes next, which are
/// in flight, and the record of each host that is done, by index.
pub struct DiscoverySweep {
    gate: ConcurrencyGate,
    total: usize,
    next: usize,
    flying: Vec<usize>,
    records: Vec<Option<HostInfo>>,
}

impl DiscoverySweep {
    pub closed spec fn count(&self) -> nat {
        self.total as nat
    }

    /// How many checks have been started; they are the first hosts.
    pub closed spec fn launched(&self) -> nat {
        self.next as nat
    }

    /// The indices of the hosts whose checks are in flight.
    pub closed spec fn flying_view(&self) -> Seq<usize> {
        self.flying@
    }

    /// The record of each host, once its check has ended.
    pub closed spec fn records_view(&self) -> Seq<Option<HostInfo>> {
        self.records@
    }

    pub closed spec fn pool(&self) -> ConcurrencyGate {
        self.gate
    }

    pub open spec fn in_flight_spec(&self) -> nat {
        self.pool().held()
    }

    pub open spec fn wf(&self) -> bool {
        &&& self.pool().wf()
        &&& self.launched() <= self.count()
        &&& self.records_view().len() == self.count()
        &&& self.flying_view().len() == self.in_flight_spec()
        &&& self.flying_view().no_duplicates()
        &&& forall|j: int|
            0 <= j < self.flying_view().len() ==> #[trigger] self.flying_view()[j]
                < self.launched()
        &&& forall|i: int|
            0 <= i < self.count() ==> ((#[trigger] self.records_view()[i]) is None <==> (i
                >= self.launched() || self.flying_view().contains(i as usize)))
    }

    /// A sweep over `count` hosts with at most `max_parallel` checks at once.
    pub fn new(count: usize, max_parallel: usize) -> (r: Result<DiscoverySweep, ScanError>)
        ensures
            max_parallel == 0 ==> r == Err::<DiscoverySweep, ScanError>(ScanError::ConfigError),
            max_parallel > 0 ==> (r matches Ok(s) && s.wf() && s.count() == count && s.launched()
                == 0 && s.pool().limit() == max_parallel),
    {
        let gate = match ConcurrencyGate::new(max_parallel) {
            Ok(g) => g,
            Err(e) => {
                return Err(e);
            },
        };
        let mut records: Vec<Option<HostInfo>> = Vec::new();
        let mut i: usize = 0;
        while i < count
            invariant
                i <= count,
                records@.len() == i,
                forall|k: int| 0 <= k < i ==> (#[trigger] records@[k]) is None,
            decreases count - i,
        {
            records.push(None);
            i += 1;
        }
        let flying: Vec<usize> = Vec::new();
        assert(flying@.no_duplicates());
        Ok(DiscoverySweep { gate, total: count, next: 0, flying, records })
    }

    pub fn next_action(&self) -> (r: DiscoveryAction)
        requires
            self.wf(),
        ensures
            self.launched() < self.count() && self.in_flight_spec() < self.pool().limit() ==> r
                == DiscoveryAction::Launch(self.launched() as usize),
            !(self.launched() < self.count() && self.in_flight_spec() < self.pool().limit())
                && self.in_flight_spec() > 0 ==> r == DiscoveryAction::AwaitOne,
            !(self.launched() < self.count() && self.in_flight_spec() < self.pool().limit())
                && self.in_flight_spec() == 0 ==> r == DiscoveryAction::Finished,
    {
        if self.next < self.total && self.gate.available() > 0 {
            DiscoveryAction::Launch(self.next)
        } else if self.gate.in_flight() > 0 {
            DiscoveryAction::AwaitOne
        } else {
            DiscoveryAction::Finished
        }
    }

    /// Records that the next host's check was started; it holds a permit.
    pub fn launch(&mut self) -> (index: usize)
        requires
            old(self).wf(),
            old(self).launched() < old(self).count(),
            old(self).in_flight_spec() < old(self).pool().limit(),
        ensures
            final(self).wf(),
            index == old(self).launched(),
            final(self).launched() == old(self).launched() + 1,
            final(self).in_flight_spec() == old(self).in_flight_spec() + 1,
            final(self).in_flight_spec() <= final(self).pool().limit(),
            final(self).flying_view() == old(self).flying_view().push(index),
            final(self).records_view() == old(self).records_view(),
            final(self).count() == old(self).count(),
            final(self).pool().limit() == old(self).pool().limit(),
    {
        let index = self.next;
        let ghost before = self.flying@;
        let _ = self.gate.try_acquire();
        self.flying.push(index);
        self.next = self.next + 1;
        proof {
            assert forall|a: int, b: int|
                0 <= a < b < self.flying@.len() implies self.flying@[a] != self.flying@[b] by {
                if b == before.len() {
                    assert(before[a] < index);
                }
            }
            assert forall|i: int| 0 <= i < self.total implies ((#[trigger] self.records@[i]) is None
                <==> (i >= self.next || self.flying@.contains(i as usize))) by {
                if i == index {
                    assert(self.flying@[before.len() as int] == index);
                } else if self.flying@.contains(i as usize) {
                    let j = choose|j: int| 0 <= j < self.flying@.len() && self.flying@[j] == i as usize;
                    if j < before.len() {
                        assert(before.contains(i as usize));
                    }
                } else if before.contains(i as usize) {
                    let j = choose|j: int| 0 <= j < before.len() && before[j] == i as usize;
                    assert(self.flying@[j] == i as usize);
                }
            }
        }
        index
    }

    /// Records the end of the check of a host in flight; its permit is released.
    pub fn settle(&mut self, index: usize, host: HostInfo)
        requires
            old(self).wf(),
            old(self).flying_view().contains(index),
        ensures
            final(self).wf(),
            final(self).in_flight_spec() == old(self).in_flight_spec() - 1,
            final(self).launched() == old(self).launched(),
            final(self).records_view() == old(self).records_view().update(index as int, Some(host)),
            final(self).count() == old(self).count(),
            final(self).pool().limit() == old(self).pool().limit(),
    {
        let ghost before = self.flying@;
        let mut k: usize = 0;
        while k < self.flying.len() && self.flying[k] != index
            invariant
                k <= self.flying@.len(),
                forall|j: int| 0 <= j < k ==> self.flying@[j] != index,
            decreases self.flying.len() - k,
        {
            k += 1;
        }
        proof {
            if k == self.flying@.len() {
                assert(!self.flying@.contains(index));
            }
        }
        self.flying.remove(k);
        self.gate.release();
        let ghost old_records = self.records@;
        self.records.set(index, Some(host));
        proof {
            assert(self.flying@ == before.remove(k as int));
            assert forall|a: int, b: int|
                0 <= a < b < self.flying@.len() implies self.flying@[a] != self.flying@[b] by {
                let a2 = if a < k { a } else { a + 1 };
                let b2 = if b < k { b } else { b + 1 };
                assert(before[a2] != before[b2]);
            }
            assert forall|i: int| 0 <= i < self.total implies ((#[trigger] self.records@[i]) is None
                <==> (i >= self.next || self.flying@.contains(i as usize))) by {
                if self.flying@.contains(i as usize) {
                    let j = choose|j: int| 0 <= j < self.flying@.len() && self.flying@[j] == i as usize;
                    let j2 = if j < k { j } else { j + 1 };
                    assert(before[j2] == i as usize);
                    assert(before.contains(i as usize));
                    if i == index {
                        assert(before[k as int] == index);
                        assert(j2 != k);
                    }
                } else if i != index && before.contains(i as usize) {
                    let j = choose|j: int| 0 <= j < before.len() && before[j] == i as usize;
                    assert(j != k);
                    let j1 = if j < k { j } else { j - 1 };
                    assert(self.flying@[j1] == i as usize);
                }
            }
            assert forall|j: int| 0 <= j < self.flying@.len() implies #[trigger] self.flying@[j]
                < self.next by {
                let j2 = if j < k { j } else { j + 1 };
                assert(self.flying@[j] == before[j2]);
            }
        }
    }

    /// The record of every host, in index order, once all checks have ended.
    pub fn finish(self) -> (r: Vec<HostInfo>)
        requires
            self.wf(),
            self.in_flight_spec() == 0,
            self.launched() == self.count(),
        ensures
            r@.len() == self.count(),
            forall|i: int| 0 <= i < r@.len() ==> Some(#[trigger] r@[i]) == self.records_view()[i],
    {
        let ghost recs = self.records@;
        assert forall|i: int| 0 <= i < recs.len() implies (#[trigger] recs[i]) is Some by {
            assert(!self.flying@.contains(i as usize));
        }
        let mut v = self.records;
        let n = v.len();
        let mut rev: Vec<HostInfo> = Vec::new();
        while v.len() > 0
            invariant
                v@ == recs.take(v@.len() as int),
                rev@.len() + v@.len() == n,
                n == recs.len(),
                forall|i: int| 0 <= i < recs.len() ==> (#[trigger] recs[i]) is Some,
                forall|k: int| 0 <= k < rev@.len() ==> Some(#[trigger] rev@[k]) == recs[n - 1 - k],
            decreases v.len(),
        {
            let x = v.pop().unwrap();
            assert(x == recs[v@.len() as int]);
            rev.push(x.unwrap());
            assert(v@ =~= recs.take(v@.len() as int));
        }
        let mut out: Vec<HostInfo> = Vec::new();
        while rev.len() > 0
            invariant
                out@.len() + rev@.len() == n,
                n == recs.len(),
                forall|k: int| 0 <= k < rev@.len() ==> Some(#[trigger] rev@[k]) == recs[n - 1 - k],
                forall|k: int| 0 <= k < out@.len() ==> Some(#[trigger] out@[k]) == recs[k],
            decreases rev.len(),
        {
            let h = rev.pop().unwrap();
            out.push(h);
        }
        out
    }
}

} // verus!
