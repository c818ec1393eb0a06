//! The scan orchestrator: permit pool, per-host probe sweep, probe outcome
//! classification, liveness gating and merging of scan phases.
//!
//! Probes themselves are network operations made by the caller; the types
//! here decide what to probe next and what each outcome means.
use vstd::prelude::*;
use crate::error::ScanError;
use crate::address::HostAddr;
use crate::network::{expand_port_ranges, expand_ranges, parse_port_list, port_list_spec, HostTarget, PortRange, TargetPlan, parse_targets, plan_matches};
use crate::types::{port_total, HostInfo, PortInfo, PortState, ScanConfig, ScanResults};
use crate::utils::{shuffle, TimeSpan};
use crate::text::{chars_of, same_chars};
use crate::service::ServiceInfo;

verus! {

/// A counting permit pool that bounds the probes in flight.
pub struct ConcurrencyGate {
    capacity: usize,
    in_use: usize,
}

impl ConcurrencyGate {
    /// The number of permits held.
    pub closed spec fn held(&self) -> nat {
        self.in_use as nat
    }

    /// The size of the pool.
    pub closed spec fn limit(&self) -> nat {
        self.capacity as nat
    }

    pub open spec fn wf(&self) -> bool {
        0 < self.limit() && self.held() <= self.limit()
    }

    /// A pool of `capacity` permits; zero permits is a configuration error.
    pub fn new(capacity: usize) -> (r: Result<ConcurrencyGate, ScanError>)
        ensures
            capacity == 0 ==> r == Err::<ConcurrencyGate, ScanError>(ScanError::ConfigError),
            capacity > 0 ==> (r matches Ok(g) && g.wf() && g.limit() == capacity && g.held()
                == 0),
    {
        if capacity == 0 {
            return Err(ScanError::ConfigError);
        }
        Ok(ConcurrencyGate { capacity, in_use: 0 })
    }

    /// Takes a permit when one is free.
    pub fn try_acquire(&mut self) -> (r: bool)
        requires
            old(self).wf(),
        ensures
            final(self).wf(),
            final(self).limit() == old(self).limit(),
            r == (old(self).held() < old(self).limit()),
            final(self).held() == if r {
                old(self).held() + 1
            } else {
                old(self).held()
            },
    {
        if self.in_use < self.capacity {
            self.in_use = self.in_use + 1;
            true
        } else {
            false
        }
    }

    /// Gives a permit back, whatever the probe's outcome was.
    pub fn release(&mut self)
        requires
            old(self).wf(),
            old(self).held() > 0,
        ensures
            final(self).wf(),
            final(self).limit() == old(self).limit(),
            final(self).held() == old(self).held() - 1,
    {
        self.in_use = self.in_use - 1;
    }

    pub fn available(&self) -> (r: usize)
        requires
            self.wf(),
        ensures
            r == self.limit() - self.held(),
    {
        self.capacity - self.in_use
    }

    pub fn in_flight(&self) -> (r: usize)
        ensures
            r == self.held(),
    {
        self.in_use
    }
}

/// What a sweep asks of its driver next.
#[derive(Debug, Clone, Copy, PartialEq, Eq, Structural)]
pub enum SweepAction {
    /// Start a probe of this port; a permit is free.
    Launch(u16),
    /// Wait for one probe in flight to settle.
    AwaitOne,
    /// Every port has been probed and every probe has settled.
    Finished,
}

/// The protocol tag of the results of a probe kind.
pub open spec fn probe_tag(kind: ProbeKind) -> Seq<char> {
    match kind {
        ProbeKind::ConnectProbe => "tcp"@,
        ProbeKind::UdpProbe => "udp"@,
    }
}

/// The states that a probe kind can report.
pub open spec fn state_of_kind(kind: ProbeKind, s: PortState) -> bool {
    match kind {
        ProbeKind::ConnectProbe => s == PortState::Open || s == PortState::Closed || s
            == PortState::Filtered,
        ProbeKind::UdpProbe => s == PortState::Open || s == PortState::OpenFiltered || s
            == PortState::Filtered || s == PortState::Unknown,
    }
}

/// A result that a probe of this kind can give.
pub open spec fn fits(kind: ProbeKind, info: PortInfo) -> bool {
    info.protocol@ == probe_tag(kind) && state_of_kind(kind, info.state)
}

/// The ports of a list of results, in order.
pub open spec fn ports_of(rs: Seq<PortInfo>) -> Seq<u16> {
    rs.map_values(|p: PortInfo| p.port)
}

/// The probes of one host: which port goes next, which ports are in flight,
/// and the results that have settled, in settling order.
pub struct HostSweep {
    gate: ConcurrencyGate,
    kind: ProbeKind,
    ports: Vec<u16>,
    total: usize,
    next: usize,
    results: Vec<PortInfo>,
    flying: Vec<u16>,
}

impl HostSweep {
    pub closed spec fn ports_view(&self) -> Seq<u16> {
        self.ports@
    }

    /// The kind of probe sent to every port.
    pub closed spec fn kind_spec(&self) -> ProbeKind {
        self.kind
    }

    /// How many probes have been started.
    pub closed spec fn launched(&self) -> nat {
        self.next as nat
    }

    pub closed spec fn results_view(&self) -> Seq<PortInfo> {
        self.results@
    }

    /// How many probes have settled.
    pub open spec fn settled(&self) -> nat {
        self.results_view().len()
    }

    /// The ports whose probes are in flight.
    pub closed spec fn flying_view(&self) -> Seq<u16> {
        self.flying@
    }

    pub closed spec fn pool(&self) -> ConcurrencyGate {
        self.gate
    }

    /// The stored port count agrees with the ports.
    pub closed spec fn counted(&self) -> bool {
        self.total == self.ports@.len()
    }

    pub open spec fn in_flight_spec(&self) -> nat {
        self.pool().held()
    }

    pub open spec fn wf(&self) -> bool {
        &&& self.counted()
        &&& self.pool().wf()
        &&& self.launched() <= self.ports_view().len()
        &&& self.settled() + self.in_flight_spec() == self.launched()
        &&& self.flying_view().len() == self.in_flight_spec()
        &&& ports_of(self.results_view()).to_multiset().add(self.flying_view().to_multiset())
            == self.ports_view().take(self.launched() as int).to_multiset()
        &&& self.pool().limit() == 1 ==> ports_of(self.results_view()) == self.ports_view().take(
            self.settled() as int,
        ) && self.flying_view() == self.ports_view().subrange(
            self.settled() as int,
            self.launched() as int,
        )
        &&& forall|i: int|
            0 <= i < self.settled() ==> fits(self.kind_spec(), #[trigger] self.results_view()[i])
    }

    /// A sweep of `kind` probes over `ports` with at most `max_parallel` in flight.
    pub fn new(ports: Vec<u16>, kind: ProbeKind, max_parallel: usize) -> (r: Result<
        HostSweep,
        ScanError,
    >)
        ensures
            max_parallel == 0 ==> r == Err::<HostSweep, ScanError>(ScanError::ConfigError),
            max_parallel > 0 ==> (r matches Ok(s) && s.wf() && s.ports_view() == ports@
                && s.kind_spec() == kind && s.launched() == 0 && s.pool().limit()
                == max_parallel),
    {
        match ConcurrencyGate::new(max_parallel) {
            Ok(gate) => {
                let total = ports.len();
                let r = HostSweep {
                    gate,
                    kind,
                    ports,
                    total,
                    next: 0,
                    results: Vec::new(),
                    flying: Vec::new(),
                };
                assert(ports_of(r.results@) =~= Seq::<u16>::empty());
                assert(r.ports@.take(0) =~= Seq::<u16>::empty());
                assert(r.ports@.subrange(0, 0) =~= Seq::<u16>::empty());
                proof {
                    broadcast use vstd::seq_lib::group_to_multiset_ensures;
                    assert(Seq::<u16>::empty().to_multiset().add(Seq::<u16>::empty().to_multiset())
                        =~= Seq::<u16>::empty().to_multiset());
                }
                Ok(r)
            },
            Err(e) => Err(e),
        }
    }

    pub fn next_action(&self) -> (r: SweepAction)
        requires
            self.wf(),
        ensures
            self.launched() < self.ports_view().len() && self.in_flight_spec()
                < self.pool().limit() ==> r == SweepAction::Launch(
                self.ports_view()[self.launched() as int],
            ),
            !(self.launched() < self.ports_view().len() && self.in_flight_spec()
                < self.pool().limit()) && self.in_flight_spec() > 0 ==> r == SweepAction::AwaitOne,
            !(self.launched() < self.ports_view().len() && self.in_flight_spec()
                < self.pool().limit()) && self.in_flight_spec() == 0 ==> r
                == SweepAction::Finished,
            r == SweepAction::Finished ==> self.settled() == self.ports_view().len(),
    {
        let in_flight = self.gate.in_flight();
        if self.next < self.total && self.gate.available() > 0 {
            SweepAction::Launch(self.ports[self.next])
        } else if in_flight > 0 {
            SweepAction::AwaitOne
        } else {
            SweepAction::Finished
        }
    }

    /// Records that the next port's probe was started; it holds a permit.
    pub fn launch(&mut self) -> (port: u16)
        requires
            old(self).wf(),
            old(self).launched() < old(self).ports_view().len(),
            old(self).in_flight_spec() < old(self).pool().limit(),
        ensures
            final(self).wf(),
            port == old(self).ports_view()[old(self).launched() as int],
            final(self).launched() == old(self).launched() + 1,
            final(self).in_flight_spec() == old(self).in_flight_spec() + 1,
            final(self).in_flight_spec() <= final(self).pool().limit(),
            final(self).flying_view() == old(self).flying_view().push(port),
            final(self).settled() == old(self).settled(),
            final(self).ports_view() == old(self).ports_view(),
            final(self).kind_spec() == old(self).kind_spec(),
            final(self).results_view() == old(self).results_view(),
            final(self).pool().limit() == old(self).pool().limit(),
    {
        let port = self.ports[self.next];
        let ghost before = *self;
        let _ = self.gate.try_acquire();
        self.flying.push(port);
        self.next = self.next + 1;
        proof {
            broadcast use vstd::seq_lib::group_to_multiset_ensures;
            assert(self.ports@.take(self.next as int) =~= before.ports@.take(before.next as int).push(port));
            assert(ports_of(self.results@).to_multiset().add(self.flying@.to_multiset()) =~= self.ports@.take(
                self.next as int,
            ).to_multiset());
            if self.gate.limit() == 1 {
                assert(self.flying@ =~= self.ports@.subrange(
                    self.results@.len() as int,
                    self.next as int,
                ));
            }
        }
        port
    }

    /// Whether `info` can settle: its port is in flight and it is a result
    /// of this sweep's probe kind.
    pub fn accepts(&self, info: &PortInfo) -> (r: bool)
        requires
            self.wf(),
        ensures
            r == (self.flying_view().contains(info.port) && fits(self.kind_spec(), *info)),
    {
        let mut k: usize = 0;
        while k < self.flying.len() && self.flying[k] != info.port
            invariant
                k <= self.flying@.len(),
                forall|j: int| 0 <= j < k ==> self.flying@[j] != info.port,
            decreases self.flying.len() - k,
        {
            k += 1;
        }
        if k == self.flying.len() {
            return false;
        }
        let tag = match self.kind {
            ProbeKind::ConnectProbe => "tcp",
            ProbeKind::UdpProbe => "udp",
        };
        if !same_chars(&chars_of(info.protocol.as_str()), &chars_of(tag)) {
            return false;
        }
        match self.kind {
            ProbeKind::ConnectProbe => info.state == PortState::Open || info.state
                == PortState::Closed || info.state == PortState::Filtered,
            ProbeKind::UdpProbe => info.state == PortState::Open || info.state
                == PortState::OpenFiltered || info.state == PortState::Filtered || info.state
                == PortState::Unknown,
        }
    }

    /// Records the settled probe of a port in flight; its permit is released.
    pub fn settle(&mut self, info: PortInfo)
        requires
            old(self).wf(),
            old(self).flying_view().contains(info.port),
            fits(old(self).kind_spec(), info),
        ensures
            final(self).wf(),
            final(self).settled() == old(self).settled() + 1,
            final(self).in_flight_spec() == old(self).in_flight_spec() - 1,
            final(self).flying_view().to_multiset() == old(self).flying_view().to_multiset().remove(
                info.port,
            ),
            final(self).launched() == old(self).launched(),
            final(self).results_view() == old(self).results_view().push(info),
            final(self).ports_view() == old(self).ports_view(),
            final(self).kind_spec() == old(self).kind_spec(),
            final(self).pool().limit() == old(self).pool().limit(),
    {
        let ghost before = *self;
        let mut k: usize = 0;
        while k < self.flying.len() && self.flying[k] != info.port
            invariant
                k <= self.flying@.len(),
                forall|j: int| 0 <= j < k ==> self.flying@[j] != info.port,
            decreases self.flying.len() - k,
        {
            k += 1;
        }
        proof {
            if k == self.flying@.len() {
                assert(!self.flying@.contains(info.port));
            }
        }
        self.flying.remove(k);
        self.gate.release();
        let ghost port = info.port;
        self.results.push(info);
        proof {
            broadcast use vstd::seq_lib::group_to_multiset_ensures;
            let r0 = ports_of(before.results@);
            assert(ports_of(self.results@) =~= r0.push(port));
            assert(self.flying@.to_multiset() =~= before.flying@.to_multiset().remove(port));
            assert(before.flying@.to_multiset().count(port) > 0);
            assert(ports_of(self.results@).to_multiset().add(self.flying@.to_multiset())
                =~= r0.to_multiset().add(before.flying@.to_multiset()));
            assert forall|i: int| 0 <= i < self.results@.len() implies fits(
                self.kind,
                #[trigger] self.results@[i],
            ) by {
                if i < before.results@.len() {
                    assert(self.results@[i] == before.results@[i]);
                }
            }
            if self.gate.limit() == 1 {
                assert(before.flying@.len() == 1);
                assert(before.flying@[0] == before.ports@[before.results@.len() as int]);
                assert(k == 0);
                assert(ports_of(self.results@) =~= self.ports@.take(self.results@.len() as int));
                assert(self.flying@ =~= self.ports@.subrange(
                    self.results@.len() as int,
                    self.next as int,
                ));
            }
        }
    }

    /// Settled probes and the total, for progress reports.
    pub fn progress(&self) -> (r: (usize, usize))
        requires
            self.wf(),
        ensures
            r.0 == self.settled() && r.1 == self.ports_view().len(),
    {
        (self.results.len(), self.total)
    }

    /// The results, once every probe has settled: each port of the sweep
    /// once per listing, each a result of the sweep's probe kind; with a
    /// single permit, in the order of the ports.
    pub fn finish(self) -> (r: Vec<PortInfo>)
        requires
            self.wf(),
            self.in_flight_spec() == 0,
            self.launched() == self.ports_view().len(),
        ensures
            r@ == self.results_view(),
            r@.len() == self.ports_view().len(),
            ports_of(r@).to_multiset() == self.ports_view().to_multiset(),
            forall|i: int| 0 <= i < r@.len() ==> fits(self.kind_spec(), #[trigger] r@[i]),
            self.pool().limit() == 1 ==> ports_of(r@) == self.ports_view(),
    {
        proof {
            broadcast use vstd::seq_lib::group_to_multiset_ensures;
            assert(self.flying@ =~= Seq::<u16>::empty());
            assert(self.ports@.take(self.ports@.len() as int) =~= self.ports@);
            assert(ports_of(self.results@).to_multiset().add(Seq::<u16>::empty().to_multiset())
                =~= ports_of(self.results@).to_multiset());
        }
        self.results
    }
}

/// How a TCP connection attempt ended.
#[derive(Debug, Clone, Copy, PartialEq, Eq, Structural)]
pub enum TcpOutcome {
    Connected,
    Refused,
    TimedOut,
    /// Any other local or network error.
    Failed,
}

/// How a UDP probe ended.
#[derive(Debug, Clone, Copy, PartialEq, Eq, Structural)]
pub enum UdpOutcome {
    /// No local socket could be bound.
    BindFailed,
    /// Setting the remote peer timed out or failed.
    PeerFailed,
    /// A datagram came back within the reply window.
    Reply,
    /// Nothing came back within the reply window.
    NoReply,
}

pub open spec fn tcp_state(o: TcpOutcome) -> PortState {
    match o {
        TcpOutcome::Connected => PortState::Open,
        TcpOutcome::Refused => PortState::Closed,
        TcpOutcome::TimedOut => PortState::Filtered,
        TcpOutcome::Failed => PortState::Filtered,
    }
}

pub open spec fn udp_state(o: UdpOutcome) -> PortState {
    match o {
        UdpOutcome::BindFailed => PortState::Unknown,
        UdpOutcome::PeerFailed => PortState::Filtered,
        UdpOutcome::Reply => PortState::Open,
        UdpOutcome::NoReply => PortState::OpenFiltered,
    }
}

/// The result of a TCP connect probe; the elapsed time is kept only for a
/// definitive answer.
pub fn tcp_port_result(port: u16, outcome: TcpOutcome, elapsed_micros: u64) -> (r: PortInfo)
    ensures
        r.port == port && r.protocol@ == "tcp"@ && r.state == tcp_state(outcome),
        r.response_time == if outcome == TcpOutcome::Connected || outcome == TcpOutcome::Refused {
            Some(elapsed_micros)
        } else {
            None
        },
        r.service is None && r.version is None,
        fits(ProbeKind::ConnectProbe, r),
{
    let info = PortInfo::new(port, "tcp".to_owned(), PortState::Filtered);
    match outcome {
        TcpOutcome::Connected => PortInfo { state: PortState::Open, ..info }.with_response_time(
            elapsed_micros,
        ),
        TcpOutcome::Refused => PortInfo { state: PortState::Closed, ..info }.with_response_time(
            elapsed_micros,
        ),
        TcpOutcome::TimedOut | TcpOutcome::Failed => info,
    }
}

/// The result of a UDP probe; the elapsed time is kept only for a reply.
pub fn udp_port_result(port: u16, outcome: UdpOutcome, elapsed_micros: u64) -> (r: PortInfo)
    ensures
        r.port == port && r.protocol@ == "udp"@ && r.state == udp_state(outcome),
        r.response_time == if outcome == UdpOutcome::Reply {
            Some(elapsed_micros)
        } else {
            None
        },
        r.service is None && r.version is None,
        fits(ProbeKind::UdpProbe, r),
{
    let state = match outcome {
        UdpOutcome::BindFailed => PortState::Unknown,
        UdpOutcome::PeerFailed => PortState::Filtered,
        UdpOutcome::Reply => PortState::Open,
        UdpOutcome::NoReply => PortState::OpenFiltered,
    };
    let info = PortInfo::new(port, "udp".to_owned(), state);
    if outcome == UdpOutcome::Reply {
        info.with_response_time(elapsed_micros)
    } else {
        info
    }
}

/// Attaches an identified service to an open port's result.
pub fn with_identified_service(info: PortInfo, service: Option<ServiceInfo>) -> (r: PortInfo)
    ensures
        r.port == info.port && r.protocol == info.protocol && r.state == info.state
            && r.response_time == info.response_time,
        service is None ==> r == info,
        service is Some ==> r.service == Some(service->0.name) && r.version
            == service->0.version,
{
    match service {
        Some(s) => PortInfo { service: Some(s.name), version: s.version, ..info },
        None => info,
    }
}

/// A liveness probe succeeds when the host answers at all: the connection
/// is accepted or actively refused.
pub open spec fn answered(o: TcpOutcome) -> bool {
    o == TcpOutcome::Connected || o == TcpOutcome::Refused
}

/// A host liveness check: short TCP probes to a fixed list of ports, in
/// order, until the first one answers.
pub struct LivenessCheck {
    ports: Vec<u16>,
    count: usize,
    next: usize,
    alive: bool,
}

impl LivenessCheck {
    pub closed spec fn ports_view(&self) -> Seq<u16> {
        self.ports@
    }

    pub closed spec fn tried(&self) -> nat {
        self.next as nat
    }

    pub closed spec fn alive_spec(&self) -> bool {
        self.alive
    }

    /// The stored port count agrees with the ports.
    pub closed spec fn counted(&self) -> bool {
        self.count == self.ports@.len()
    }

    pub open spec fn wf(&self) -> bool {
        self.counted() && self.tried() <= self.ports_view().len()
    }

    pub fn new(ports: Vec<u16>) -> (r: LivenessCheck)
        ensures
            r.wf() && r.ports_view() == ports@ && r.tried() == 0 && !r.alive_spec(),
    {
        let count = ports.len();
        LivenessCheck { ports, count, next: 0, alive: false }
    }

    /// The next port to try; none once the host answered or the list is spent.
    pub fn next_probe(&self) -> (r: Option<u16>)
        requires
            self.wf(),
        ensures
            r == if self.alive_spec() || self.tried() >= self.ports_view().len() {
                None
            } else {
                Some(self.ports_view()[self.tried() as int])
            },
    {
        if self.alive || self.next >= self.count {
            None
        } else {
            Some(self.ports[self.next])
        }
    }

    /// Records the outcome of the probe that `next_probe` named.
    pub fn record(&mut self, outcome: TcpOutcome)
        requires
            old(self).wf(),
            !old(self).alive_spec(),
            old(self).tried() < old(self).ports_view().len(),
        ensures
            final(self).wf(),
            final(self).tried() == old(self).tried() + 1,
            final(self).alive_spec() == answered(outcome),
            final(self).ports_view() == old(self).ports_view(),
    {
        self.alive = outcome == TcpOutcome::Connected || outcome == TcpOutcome::Refused;
        self.next = self.next + 1;
    }

    pub fn is_alive(&self) -> (r: bool)
        ensures
            r == self.alive_spec(),
    {
        self.alive
    }
}

/// The finished result of one host: a host that is not up keeps no ports.
pub fn host_result(target: HostTarget, alive: bool, ports: Vec<PortInfo>, scan_time: u64) -> (r: HostInfo)
    ensures
        r.addr == target.addr && r.hostname == target.hostname && r.is_up == alive,
        r.scan_time == scan_time,
        r.ports@ == if alive {
            ports@
        } else {
            Seq::<PortInfo>::empty()
        },
        r.response_time is None,
{
    let h = HostInfo::new(target.addr, scan_time);
    let h = HostInfo { hostname: target.hostname, is_up: alive, ..h };
    if alive {
        HostInfo { ports, ..h }
    } else {
        h
    }
}

/// The probes a technique sends.
#[derive(Debug, Clone, Copy, PartialEq, Eq, Structural)]
pub enum ProbeKind {
    /// A full TCP connect, under the scan timeout.
    ConnectProbe,
    /// An empty datagram and a short reply window.
    UdpProbe,
}

/// A scan technique. `Syn` is a plain TCP connect under another name: no
/// raw sockets and no half-open handshake are used.
#[derive(Debug, Clone, Copy, PartialEq, Eq, Structural)]
pub enum ScanTechnique {
    Syn,
    Connect,
    Udp,
    /// A connect scan of the requested ports, then a UDP scan of a fixed
    /// list of service ports, merged per host.
    Comprehensive,
}

/// The UDP ports of the second phase of a comprehensive scan.
pub open spec fn secondary_udp_ports() -> Seq<u16> {
    seq![53u16, 67, 68, 69, 123, 161, 162, 500, 514, 520, 1900, 4500]
}

/// The ports of the liveness check that precedes a port scan.
pub open spec fn liveness_ports_spec() -> Seq<u16> {
    seq![80u16, 443, 22, 21, 25, 53]
}

pub open spec fn singles(ps: Seq<u16>) -> Seq<PortRange> {
    ps.map_values(|p: u16| PortRange { start: p, end: p })
}

/// One phase of a scan: the probe to send and the ports to send it to.
pub struct ScanPhase {
    pub kind: ProbeKind,
    pub ranges: Vec<PortRange>,
}

/// A port scanner: its configuration, fixed before the scan.
pub struct PortScanner {
    pub config: ScanConfig,
    pub service_detection: bool,
    pub os_detection: bool,
}

impl PortScanner {
    pub fn new() -> (r: PortScanner)
        ensures
            r.config.timeout.millis == 3000 && r.config.max_parallel == 100
                && r.config.delay.millis == 0 && r.config.retries == 1 && !r.config.randomize,
            !r.service_detection && !r.os_detection,
    {
        PortScanner { config: ScanConfig::default(), service_detection: false, os_detection: false }
    }

    pub fn with_max_parallel(self, max_parallel: usize) -> (r: PortScanner)
        ensures
            r.config == (ScanConfig { max_parallel, ..self.config }),
            r.service_detection == self.service_detection && r.os_detection == self.os_detection,
    {
        PortScanner { config: ScanConfig { max_parallel, ..self.config }, ..self }
    }

    pub fn with_timeout(self, timeout: TimeSpan) -> (r: PortScanner)
        ensures
            r.config == (ScanConfig { timeout, ..self.config }),
            r.service_detection == self.service_detection && r.os_detection == self.os_detection,
    {
        PortScanner { config: ScanConfig { timeout, ..self.config }, ..self }
    }

    pub fn with_randomize(self, randomize: bool) -> (r: PortScanner)
        ensures
            r.config == (ScanConfig { randomize, ..self.config }),
            r.service_detection == self.service_detection && r.os_detection == self.os_detection,
    {
        PortScanner { config: ScanConfig { randomize, ..self.config }, ..self }
    }

    pub fn with_service_detection(self, enabled: bool) -> (r: PortScanner)
        ensures
            r.config == self.config && r.service_detection == enabled && r.os_detection
                == self.os_detection,
    {
        PortScanner { service_detection: enabled, ..self }
    }

    pub fn with_os_detection(self, enabled: bool) -> (r: PortScanner)
        ensures
            r.config == self.config && r.service_detection == self.service_detection
                && r.os_detection == enabled,
    {
        PortScanner { os_detection: enabled, ..self }
    }

    /// Reads a port list `token(,token)*`.
    pub fn parse_ports(&self, ports_str: &str) -> (r: Result<Vec<PortRange>, ScanError>)
        ensures
            match r {
                Ok(v) => port_list_spec(ports_str@) == Some(v@),
                Err(e) => port_list_spec(ports_str@) is None && e == ScanError::FormatError,
            },
    {
        parse_port_list(ports_str)
    }

    /// The phases of a technique over the requested port list.
    pub fn phases(&self, technique: ScanTechnique, ports: &str) -> (r: Result<Vec<ScanPhase>, ScanError>)
        ensures
            port_list_spec(ports@) is None ==> r == Err::<Vec<ScanPhase>, ScanError>(ScanError::FormatError),
            port_list_spec(ports@) is Some ==> (r matches Ok(v) && {
                let req = port_list_spec(ports@)->0;
                match technique {
                    ScanTechnique::Syn | ScanTechnique::Connect => v@.len() == 1 && v@[0].kind
                        == ProbeKind::ConnectProbe && v@[0].ranges@ == req,
                    ScanTechnique::Udp => v@.len() == 1 && v@[0].kind == ProbeKind::UdpProbe
                        && v@[0].ranges@ == req,
                    ScanTechnique::Comprehensive => v@.len() == 2 && v@[0].kind
                        == ProbeKind::ConnectProbe && v@[0].ranges@ == req && v@[1].kind
                        == ProbeKind::UdpProbe && v@[1].ranges@ == singles(secondary_udp_ports()),
                }
            }),
    {
        let requested = match self.parse_ports(ports) {
            Ok(v) => v,
            Err(e) => {
                return Err(e);
            },
        };
        let mut v: Vec<ScanPhase> = Vec::new();
        match technique {
            ScanTechnique::Syn | ScanTechnique::Connect => {
                v.push(ScanPhase { kind: ProbeKind::ConnectProbe, ranges: requested });
            },
            ScanTechnique::Udp => {
                v.push(ScanPhase { kind: ProbeKind::UdpProbe, ranges: requested });
            },
            ScanTechnique::Comprehensive => {
                v.push(ScanPhase { kind: ProbeKind::ConnectProbe, ranges: requested });
                let list = vec![53u16, 67, 68, 69, 123, 161, 162, 500, 514, 520, 1900, 4500];
                let mut secondary: Vec<PortRange> = Vec::new();
                let mut i: usize = 0;
                while i < list.len()
                    invariant
                        i <= list@.len(),
                        list@ == secondary_udp_ports(),
                        secondary@ == singles(list@.take(i as int)),
                    decreases list.len() - i,
                {
                    secondary.push(PortRange::single(list[i]));
                    i += 1;
                    assert(secondary@ =~= singles(list@.take(i as int)));
                }
                assert(list@.take(i as int) =~= list@);
                v.push(ScanPhase { kind: ProbeKind::UdpProbe, ranges: secondary });
            },
        }
        Ok(v)
    }

    /// The liveness check run before a host's ports are probed.
    pub fn liveness_check(&self) -> (r: LivenessCheck)
        ensures
            r.wf() && r.ports_view() == liveness_ports_spec() && r.tried() == 0 && !r.alive_spec(),
    {
        LivenessCheck::new(vec![80u16, 443, 22, 21, 25, 53])
    }

    /// The timeout of each liveness probe.
    pub fn liveness_timeout(&self) -> (r: TimeSpan)
        ensures
            r.millis == 500,
    {
        TimeSpan::from_millis(500)
    }

    /// Rejects a configuration that cannot scan: zero parallelism.
    pub fn check_config(&self) -> (r: Result<(), ScanError>)
        ensures
            self.config.max_parallel == 0 <==> r == Err::<(), ScanError>(ScanError::ConfigError),
            self.config.max_parallel > 0 <==> r is Ok,
    {
        if self.config.max_parallel == 0 {
            return Err(ScanError::ConfigError);
        }
        Ok(())
    }

    /// Whether a probed port goes on to service identification: only an
    /// open port, and only when the scan asks for it.
    pub fn wants_identification(&self, info: &PortInfo) -> (r: bool)
        ensures
            r == (self.service_detection && info.state == PortState::Open),
    {
        self.service_detection && info.state == PortState::Open
    }

    /// How long a UDP probe waits for a reply after sending.
    pub fn udp_reply_window(&self) -> (r: TimeSpan)
        ensures
            r.millis == 100,
    {
        TimeSpan::from_millis(100)
    }

    /// The ports of the ranges in list order, shuffled when the scan asks
    /// for a random order.
    pub fn port_order(&self, ranges: &Vec<PortRange>) -> (r: Vec<u16>)
        requires
            forall|i: int| 0 <= i < ranges.len() ==> (#[trigger] ranges@[i]).wf(),
        ensures
            !self.config.randomize ==> r@ == expand_ranges(ranges@),
            r@.to_multiset() == expand_ranges(ranges@).to_multiset(),
    {
        let mut ports = expand_port_ranges(ranges);
        if self.config.randomize {
            shuffle(&mut ports);
        }
        ports
    }

    /// The sweep of one host's ports: connect probes run up to the
    /// configured parallelism, UDP probes one at a time in port order.
    pub fn sweep(&self, ports: Vec<u16>, kind: ProbeKind) -> (r: Result<HostSweep, ScanError>)
        ensures
            kind == ProbeKind::ConnectProbe && self.config.max_parallel == 0 ==> r == Err::<
                HostSweep,
                ScanError,
            >(ScanError::ConfigError),
            kind == ProbeKind::ConnectProbe && self.config.max_parallel > 0 ==> (r matches Ok(s)
                && s.wf() && s.ports_view() == ports@ && s.kind_spec() == kind && s.launched() == 0
                && s.pool().limit() == self.config.max_parallel),
            kind == ProbeKind::UdpProbe ==> (r matches Ok(s) && s.wf() && s.ports_view() == ports@
                && s.kind_spec() == kind && s.launched() == 0 && s.pool().limit() == 1),
    {
        match kind {
            ProbeKind::ConnectProbe => HostSweep::new(ports, kind, self.config.max_parallel),
            ProbeKind::UdpProbe => HostSweep::new(ports, kind, 1),
        }
    }

    /// Reads every target specification, in order; the first that fails
    /// ends the whole reading with its error.
    pub fn parse_all_targets(&self, targets: &Vec<String>) -> (r: Result<Vec<TargetPlan>, ScanError>)
        ensures
            r is Ok ==> r->Ok_0@.len() == targets@.len(),
            r is Ok ==> forall|i: int|
                0 <= i < targets@.len() ==> plan_matches(
                    Ok::<TargetPlan, ScanError>(#[trigger] r->Ok_0@[i]),
                    targets@[i]@,
                ),
            r is Err ==> exists|i: int|
                0 <= i < targets@.len() && plan_matches(
                    Err::<TargetPlan, ScanError>(r->Err_0),
                    #[trigger] targets@[i]@,
                ),
    {
        let mut plans: Vec<TargetPlan> = Vec::new();
        let mut i: usize = 0;
        while i < targets.len()
            invariant
                i <= targets@.len(),
                plans@.len() == i,
                forall|k: int|
                    0 <= k < i ==> plan_matches(
                        Ok::<TargetPlan, ScanError>(#[trigger] plans@[k]),
                        targets@[k]@,
                    ),
            decreases targets.len() - i,
        {
            match parse_targets(targets[i].as_str()) {
                Ok(p) => {
                    plans.push(p);
                },
                Err(e) => {
                    assert(plan_matches(Err::<TargetPlan, ScanError>(e), targets@[i as int]@));
                    return Err(e);
                },
            }
            i += 1;
        }
        Ok(plans)
    }
}

impl Default for PortScanner {
    fn default() -> (r: PortScanner)
        ensures
            r.config.max_parallel == 100 && !r.service_detection && !r.os_detection,
    {
        PortScanner::new()
    }
}

/// The ports of the UDP hosts at `addr`, in host order.
pub open spec fn udp_ports_for(udp: Seq<HostInfo>, addr: HostAddr) -> Seq<PortInfo>
    decreases udp.len(),
{
    if udp.len() == 0 {
        Seq::empty()
    } else {
        udp_ports_for(udp.drop_last(), addr) + if udp.last().addr == addr {
            udp.last().ports@
        } else {
            Seq::empty()
        }
    }
}

/// No host before index `i` has the address of host `i`.
pub open spec fn first_of_addr(hs: Seq<HostInfo>, i: int) -> bool {
    forall|j: int| 0 <= j < i ==> #[trigger] hs[j].addr != hs[i].addr
}

/// The merged ports of TCP host `i`: its own, then, at the first host of
/// each address, those of every UDP host at that address.
pub open spec fn merged_ports(tcp: Seq<HostInfo>, udp: Seq<HostInfo>, i: int) -> Seq<PortInfo> {
    tcp[i].ports@ + if first_of_addr(tcp, i) {
        udp_ports_for(udp, tcp[i].addr)
    } else {
        Seq::empty()
    }
}

/// Everything but the port list agrees.
pub open spec fn same_host(a: HostInfo, b: HostInfo) -> bool {
    a.addr == b.addr && a.hostname == b.hostname && a.is_up == b.is_up && a.os_info == b.os_info
        && a.scan_time == b.scan_time && a.response_time == b.response_time
}

proof fn lemma_port_total_update(hs: Seq<HostInfo>, k: int, h: HostInfo)
    requires
        0 <= k < hs.len(),
    ensures
        port_total(hs.update(k, h)) + hs[k].ports@.len() == port_total(hs) + h.ports@.len(),
    decreases hs.len(),
{
    if k < hs.len() - 1 {
        lemma_port_total_update(hs.drop_last(), k, h);
        assert(hs.update(k, h).drop_last() =~= hs.drop_last().update(k, h));
    } else {
        assert(hs.update(k, h).drop_last() =~= hs.drop_last());
    }
}

proof fn lemma_port_total_prefix(hs: Seq<HostInfo>, i: int)
    requires
        0 <= i <= hs.len(),
    ensures
        port_total(hs.take(i)) <= port_total(hs),
    decreases hs.len(),
{
    if i < hs.len() {
        lemma_port_total_prefix(hs.drop_last(), i);
        assert(hs.drop_last().take(i) =~= hs.take(i));
    } else {
        assert(hs.take(i) =~= hs);
    }
}

/// The items of `v`, last first.
fn reversed<T>(v: Vec<T>) -> (r: Vec<T>)
    ensures
        r@.len() == v@.len(),
        forall|k: int| 0 <= k < v@.len() ==> #[trigger] r@[k] == v@[v@.len() - 1 - k],
{
    let mut v = v;
    let ghost orig = v@;
    let mut r: Vec<T> = Vec::new();
    while v.len() > 0
        invariant
            v@ == orig.take(v@.len() as int),
            r@.len() + v@.len() == orig.len(),
            forall|k: int| 0 <= k < r@.len() ==> #[trigger] r@[k] == orig[orig.len() - 1 - k],
        decreases v.len(),
    {
        let x = v.pop().unwrap();
        r.push(x);
        assert(v@ =~= orig.take(v@.len() as int));
    }
    r
}

/// Merges the two phases of a comprehensive scan: each UDP host's ports are
/// appended to the first TCP host with its address. The counters of the
/// result are rebuilt host by host.
pub fn merge_phases(tcp: ScanResults, udp: ScanResults) -> (r: ScanResults)
    requires
        tcp.wf(),
        udp.wf(),
        port_total(tcp.hosts@) + port_total(udp.hosts@) <= usize::MAX,
    ensures
        r.wf(),
        r.start_time == tcp.start_time,
        r.hosts@.len() == tcp.hosts@.len(),
        forall|i: int|
            0 <= i < tcp.hosts@.len() ==> same_host(#[trigger] r.hosts@[i], tcp.hosts@[i])
                && r.hosts@[i].ports@ == merged_ports(tcp.hosts@, udp.hosts@, i),
{
    let ghost t = tcp.hosts@;
    let ghost u = udp.hosts@;
    let mut out = tcp.hosts;
    let mut rest = reversed(udp.hosts);
    let mut j: usize = 0;
    proof {
        assert(u.take(0) =~= Seq::<HostInfo>::empty());
        assert forall|i: int| 0 <= i < t.len() implies out@[i].ports@ == t[i].ports@ + (
        if first_of_addr(t, i) {
            udp_ports_for(u.take(0), t[i].addr)
        } else {
            Seq::empty()
        }) by {
            assert(t[i].ports@ + Seq::<PortInfo>::empty() =~= t[i].ports@);
        }
    }
    while rest.len() > 0
        invariant
            out@.len() == t.len(),
            j + rest@.len() == u.len(),
            forall|k: int| 0 <= k < rest@.len() ==> #[trigger] rest@[k] == u[u.len() - 1 - k],
            forall|i: int| 0 <= i < t.len() ==> same_host(#[trigger] out@[i], t[i]),
            forall|i: int|
                0 <= i < t.len() ==> (#[trigger] out@[i]).ports@ == t[i].ports@ + (
                if first_of_addr(t, i) {
                    udp_ports_for(u.take(j as int), t[i].addr)
                } else {
                    Seq::empty()
                }),
            port_total(out@) <= port_total(t) + port_total(u.take(j as int)),
            port_total(t) + port_total(u) <= usize::MAX,
            u.len() <= usize::MAX,
        decreases rest.len(),
    {
        let mut h = rest.pop().unwrap();
        assert(h == u[j as int]);
        assert(u.take(j + 1).drop_last() =~= u.take(j as int));
        proof {
            lemma_port_total_prefix(u, j + 1);
        }
        let mut k: usize = 0;
        while k < out.len() && out[k].addr != h.addr
            invariant
                k <= out@.len(),
                out@.len() == t.len(),
                forall|i: int| 0 <= i < t.len() ==> same_host(#[trigger] out@[i], t[i]),
                forall|m: int| 0 <= m < k ==> (#[trigger] t[m]).addr != h.addr,
            decreases out.len() - k,
        {
            k += 1;
        }
        let ghost before = out@;
        if k < out.len() {
            let ghost added = h.ports@;
            out[k].ports.append(&mut h.ports);
            proof {
                lemma_port_total_update(before, k as int, out@[k as int]);
                assert(out@ == before.update(k as int, out@[k as int]));
                assert(first_of_addr(t, k as int));
                assert forall|i: int| 0 <= i < t.len() implies (#[trigger] out@[i]).ports@
                    == t[i].ports@ + (if first_of_addr(t, i) {
                    udp_ports_for(u.take(j + 1), t[i].addr)
                } else {
                    Seq::empty()
                }) by {
                    if i == k {
                        assert(out@[i].ports@ =~= t[i].ports@ + (udp_ports_for(
                            u.take(j as int),
                            t[i].addr,
                        ) + added));
                    } else if first_of_addr(t, i) {
                        if t[i].addr == h.addr {
                            if i < k {
                            } else {
                                assert(t[k as int].addr == t[i].addr);
                            }
                        }
                        assert(udp_ports_for(u.take(j + 1), t[i].addr) =~= udp_ports_for(
                            u.take(j as int),
                            t[i].addr,
                        ));
                    }
                }
            }
        } else {
            proof {
                assert forall|i: int| 0 <= i < t.len() implies (#[trigger] out@[i]).ports@
                    == t[i].ports@ + (if first_of_addr(t, i) {
                    udp_ports_for(u.take(j + 1), t[i].addr)
                } else {
                    Seq::empty()
                }) by {
                    assert(t[i].addr != h.addr);
                    assert(udp_ports_for(u.take(j + 1), t[i].addr) =~= udp_ports_for(
                        u.take(j as int),
                        t[i].addr,
                    ));
                }
            }
        }
        j += 1;
    }
    assert(u.take(j as int) =~= u);
    let ghost merged = out@;
    let mut r = ScanResults {
        hosts: Vec::new(),
        start_time: tcp.start_time,
        end_time: tcp.end_time,
        total_hosts: 0,
        hosts_up: 0,
        total_ports_scanned: 0,
        open_ports_found: 0,
    };
    let mut pending = reversed(out);
    let mut i: usize = 0;
    while pending.len() > 0
        invariant
            r.wf(),
            r.start_time == tcp.start_time,
            i + pending@.len() == merged.len(),
            forall|k: int|
                0 <= k < pending@.len() ==> #[trigger] pending@[k] == merged[merged.len() - 1 - k],
            r.hosts@ == merged.take(i as int),
            port_total(merged) <= usize::MAX,
            merged.len() <= usize::MAX,
        decreases pending.len(),
    {
        let h = pending.pop().unwrap();
        assert(h == merged[i as int]);
        proof {
            assert(merged.take(i + 1).drop_last() =~= merged.take(i as int));
            lemma_port_total_prefix(merged, i + 1);
        }
        r.add_host(h);
        i += 1;
        assert(r.hosts@ =~= merged.take(i as int));
    }
    assert(merged.take(i as int) =~= merged);
    r
}

proof fn lemma_udp_ports_single(udp: Seq<HostInfo>, addr: HostAddr, j: int)
    requires
        0 <= j < udp.len(),
        udp[j].addr == addr,
        forall|k: int| 0 <= k < udp.len() && k != j ==> (#[trigger] udp[k]).addr != addr,
    ensures
        udp_ports_for(udp, addr) == udp[j].ports@,
    decreases udp.len(),
{
    if j < udp.len() - 1 {
        lemma_udp_ports_single(udp.drop_last(), addr, j);
        assert(udp_ports_for(udp, addr) =~= udp_ports_for(udp.drop_last(), addr));
    } else {
        lemma_udp_ports_none(udp.drop_last(), addr);
        assert(udp_ports_for(udp, addr) =~= udp[j].ports@);
    }
}

proof fn lemma_udp_ports_none(udp: Seq<HostInfo>, addr: HostAddr)
    requires
        forall|k: int| 0 <= k < udp.len() ==> (#[trigger] udp[k]).addr != addr,
    ensures
        udp_ports_for(udp, addr) == Seq::<PortInfo>::empty(),
    decreases udp.len(),
{
    if udp.len() > 0 {
        lemma_udp_ports_none(udp.drop_last(), addr);
        assert(udp_ports_for(udp, addr) =~= Seq::<PortInfo>::empty());
    }
}

/// A comprehensive scan drops nothing: for a host that appears once in each
/// phase, its merged port list is its TCP-phase list followed by its
/// UDP-phase list, so its length is the sum of the two.
pub proof fn lemma_merge_keeps_all(tcp: Seq<HostInfo>, udp: Seq<HostInfo>, i: int, j: int)
    requires
        0 <= i < tcp.len(),
        0 <= j < udp.len(),
        forall|k: int| 0 <= k < tcp.len() && k != i ==> (#[trigger] tcp[k]).addr != tcp[i].addr,
        forall|k: int| 0 <= k < udp.len() ==> ((#[trigger] udp[k]).addr == tcp[i].addr <==> k
            == j),
    ensures
        merged_ports(tcp, udp, i) == tcp[i].ports@ + udp[j].ports@,
        merged_ports(tcp, udp, i).len() == tcp[i].ports@.len() + udp[j].ports@.len(),
{
    lemma_udp_ports_single(udp, tcp[i].addr, j);
    assert(first_of_addr(tcp, i));
}

} // verus!
