//! Probe results, per-host results and the scan session aggregate.
use vstd::prelude::*;
use crate::address::HostAddr;
use crate::utils::{current_timestamp, TimeSpan};

verus! {

/// A captured packet summary.
#[derive(Debug, Clone)]
pub struct PacketInfo {
    pub timestamp: u64,
    pub length: usize,
    pub protocol: String,
    pub src_addr: Option<String>,
    pub dst_addr: Option<String>,
    pub src_port: Option<u16>,
    pub dst_port: Option<u16>,
    pub info: Option<String>,
}

impl PacketInfo {
    /// An empty record of protocol "Unknown".
    pub fn new() -> (r: PacketInfo)
        ensures
            r.timestamp == 0 && r.length == 0 && r.protocol@ == "Unknown"@,
            r.src_addr is None && r.dst_addr is None && r.src_port is None && r.dst_port is None
                && r.info is None,
    {
        PacketInfo {
            timestamp: 0,
            length: 0,
            protocol: "Unknown".to_owned(),
            src_addr: None,
            dst_addr: None,
            src_port: None,
            dst_port: None,
            info: None,
        }
    }
}

impl Default for PacketInfo {
    fn default() -> (r: PacketInfo)
        ensures
            r.timestamp == 0 && r.length == 0 && r.protocol@ == "Unknown"@,
    {
        PacketInfo::new()
    }
}

/// The classification of one probed port.
#[derive(Debug, Clone, Copy, PartialEq, Eq, Structural)]
pub enum PortState {
    Open,
    Closed,
    Filtered,
    OpenFiltered,
    ClosedFiltered,
    Unknown,
}

impl PortState {
    pub open spec fn open_spec(self) -> bool {
        self == PortState::Open || self == PortState::OpenFiltered
    }

    pub open spec fn label(self) -> Seq<char> {
        match self {
            PortState::Open => "open"@,
            PortState::Closed => "closed"@,
            PortState::Filtered => "filtered"@,
            PortState::OpenFiltered => "open|filtered"@,
            PortState::ClosedFiltered => "closed|filtered"@,
            PortState::Unknown => "unknown"@,
        }
    }

    pub fn as_str(&self) -> (r: &'static str)
        ensures
            r@ == self.label(),
    {
        match self {
            PortState::Open => "open",
            PortState::Closed => "closed",
            PortState::Filtered => "filtered",
            PortState::OpenFiltered => "open|filtered",
            PortState::ClosedFiltered => "closed|filtered",
            PortState::Unknown => "unknown",
        }
    }

    pub fn is_open(&self) -> (r: bool)
        ensures
            r == self.open_spec(),
    {
        match self {
            PortState::Open | PortState::OpenFiltered => true,
            _ => false,
        }
    }
}

/// The result of probing one port.
#[derive(Debug, Clone)]
pub struct PortInfo {
    pub port: u16,
    pub protocol: String,
    pub state: PortState,
    pub service: Option<String>,
    pub version: Option<String>,
    /// Microseconds to a definitive answer.
    pub response_time: Option<u64>,
}

impl PortInfo {
    pub fn new(port: u16, protocol: String, state: PortState) -> (r: PortInfo)
        ensures
            r.port == port && r.protocol == protocol && r.state == state,
            r.service is None && r.version is None && r.response_time is None,
    {
        PortInfo { port, protocol, state, service: None, version: None, response_time: None }
    }

    pub fn with_service(self, service: String) -> (r: PortInfo)
        ensures
            r == (PortInfo { service: Some(service), ..self }),
    {
        PortInfo { service: Some(service), ..self }
    }

    pub fn with_version(self, version: String) -> (r: PortInfo)
        ensures
            r == (PortInfo { version: Some(version), ..self }),
    {
        PortInfo { version: Some(version), ..self }
    }

    pub fn with_response_time(self, response_time: u64) -> (r: PortInfo)
        ensures
            r == (PortInfo { response_time: Some(response_time), ..self }),
    {
        PortInfo { response_time: Some(response_time), ..self }
    }
}

/// The ports of `ps` whose state counts as open, in order.
pub open spec fn open_of(ps: Seq<PortInfo>) -> Seq<PortInfo>
    decreases ps.len(),
{
    if ps.len() == 0 {
        Seq::empty()
    } else if ps.last().state.open_spec() {
        open_of(ps.drop_last()).push(ps.last())
    } else {
        open_of(ps.drop_last())
    }
}

/// The result of scanning one host.
#[derive(Debug, Clone)]
pub struct HostInfo {
    pub addr: HostAddr,
    pub hostname: Option<String>,
    pub is_up: bool,
    pub ports: Vec<PortInfo>,
    pub os_info: Option<String>,
    /// Seconds since the Unix epoch.
    pub scan_time: u64,
    /// Microseconds to the first answer of the liveness check.
    pub response_time: Option<u64>,
}

impl HostInfo {
    /// A host not yet known to be up, with no ports, scanned at `scan_time`
    /// (seconds since the Unix epoch).
    pub fn new(addr: HostAddr, scan_time: u64) -> (r: HostInfo)
        ensures
            r.addr == addr && r.hostname is None && !r.is_up && r.ports@.len() == 0,
            r.os_info is None && r.response_time is None && r.scan_time == scan_time,
    {
        HostInfo {
            addr,
            hostname: None,
            is_up: false,
            ports: Vec::new(),
            os_info: None,
            scan_time,
            response_time: None,
        }
    }

    pub fn with_hostname(self, hostname: String) -> (r: HostInfo)
        ensures
            r == (HostInfo { hostname: Some(hostname), ..self }),
    {
        HostInfo { hostname: Some(hostname), ..self }
    }

    pub fn set_up(self, is_up: bool) -> (r: HostInfo)
        ensures
            r == (HostInfo { is_up, ..self }),
    {
        HostInfo { is_up, ..self }
    }

    pub fn add_port(self, port_info: PortInfo) -> (r: HostInfo)
        ensures
            r.ports@ == self.ports@.push(port_info),
            r.addr == self.addr && r.hostname == self.hostname && r.is_up == self.is_up,
            r.os_info == self.os_info && r.scan_time == self.scan_time && r.response_time
                == self.response_time,
    {
        let mut h = self;
        h.ports.push(port_info);
        h
    }

    /// The open ports, in order.
    pub fn open_ports(&self) -> (r: Vec<&PortInfo>)
        ensures
            r@.len() == open_of(self.ports@).len(),
            forall|i: int| 0 <= i < r@.len() ==> *(#[trigger] r@[i]) == open_of(self.ports@)[i],
    {
        let mut r: Vec<&PortInfo> = Vec::new();
        let mut i: usize = 0;
        while i < self.ports.len()
            invariant
                i <= self.ports.len(),
                r@.len() == open_of(self.ports@.take(i as int)).len(),
                forall|k: int|
                    0 <= k < r@.len() ==> *(#[trigger] r@[k]) == open_of(
                        self.ports@.take(i as int),
                    )[k],
            decreases self.ports.len() - i,
        {
            assert(self.ports@.take(i + 1).drop_last() =~= self.ports@.take(i as int));
            if self.ports[i].state.is_open() {
                r.push(&self.ports[i]);
            }
            i += 1;
        }
        assert(self.ports@.take(i as int) =~= self.ports@);
        r
    }
}

/// The number of hosts that are up.
pub open spec fn up_count(hs: Seq<HostInfo>) -> nat
    decreases hs.len(),
{
    if hs.len() == 0 {
        0
    } else {
        up_count(hs.drop_last()) + if hs.last().is_up {
            1nat
        } else {
            0nat
        }
    }
}

/// The sum of the hosts' port-list lengths.
pub open spec fn port_total(hs: Seq<HostInfo>) -> nat
    decreases hs.len(),
{
    if hs.len() == 0 {
        0
    } else {
        port_total(hs.drop_last()) + hs.last().ports@.len()
    }
}

/// The number of the hosts' ports whose state counts as open.
pub open spec fn open_total(hs: Seq<HostInfo>) -> nat
    decreases hs.len(),
{
    if hs.len() == 0 {
        0
    } else {
        open_total(hs.drop_last()) + open_of(hs.last().ports@).len()
    }
}

/// The results of one scan invocation, hosts in target order.
#[derive(Debug, Clone)]
pub struct ScanResults {
    pub hosts: Vec<HostInfo>,
    pub start_time: u64,
    pub end_time: u64,
    pub total_hosts: usize,
    pub hosts_up: usize,
    pub total_ports_scanned: usize,
    pub open_ports_found: usize,
}

impl ScanResults {
    /// The counters agree with the hosts.
    pub open spec fn wf(self) -> bool {
        &&& self.total_hosts == self.hosts@.len()
        &&& self.hosts_up == up_count(self.hosts@)
        &&& self.total_ports_scanned == port_total(self.hosts@)
        &&& self.open_ports_found == open_total(self.hosts@)
    }

    /// An empty session started at `now` (seconds since the Unix epoch).
    pub fn new(now: u64) -> (r: ScanResults)
        ensures
            r.wf(),
            r.hosts@.len() == 0,
            r.start_time == now,
            r.end_time == 0,
    {
        ScanResults {
            hosts: Vec::new(),
            start_time: now,
            end_time: 0,
            total_hosts: 0,
            hosts_up: 0,
            total_ports_scanned: 0,
            open_ports_found: 0,
        }
    }

    /// Appends a host and updates each counter by that host's share.
    pub fn add_host(&mut self, host: HostInfo)
        requires
            old(self).wf(),
            old(self).hosts@.len() < usize::MAX,
            old(self).total_ports_scanned + host.ports@.len() <= usize::MAX,
        ensures
            final(self).wf(),
            final(self).hosts@ == old(self).hosts@.push(host),
            final(self).total_hosts == old(self).total_hosts + 1,
            final(self).hosts_up == old(self).hosts_up + if host.is_up {
                1int
            } else {
                0int
            },
            final(self).total_ports_scanned == old(self).total_ports_scanned + host.ports@.len(),
            final(self).open_ports_found == old(self).open_ports_found + open_of(host.ports@).len(),
            final(self).start_time == old(self).start_time,
            final(self).end_time == old(self).end_time,
    {
        let open = host.open_ports().len();
        let n = host.ports.len();
        let up = host.is_up;
        proof {
            lemma_open_le(host.ports@);
            lemma_open_total_le(self.hosts@);
        }
        self.total_hosts = self.total_hosts + 1;
        if up {
            proof {
                lemma_up_le(self.hosts@);
            }
            self.hosts_up = self.hosts_up + 1;
        }
        self.total_ports_scanned = self.total_ports_scanned + n;
        self.open_ports_found = self.open_ports_found + open;
        let ghost before = self.hosts@;
        self.hosts.push(host);
        assert(self.hosts@.drop_last() =~= before);
    }

    /// Fixes the end time at `now`.
    pub fn finalize(&mut self, now: u64)
        ensures
            final(self).end_time == now,
            old(self).wf() ==> final(self).wf(),
            final(self).hosts@ == old(self).hosts@,
            final(self).start_time == old(self).start_time,
            final(self).total_hosts == old(self).total_hosts,
            final(self).hosts_up == old(self).hosts_up,
            final(self).total_ports_scanned == old(self).total_ports_scanned,
            final(self).open_ports_found == old(self).open_ports_found,
    {
        self.end_time = now;
    }

    /// Seconds from start to end; zero when the end precedes the start.
    pub fn duration(&self) -> (r: u64)
        ensures
            r == if self.end_time >= self.start_time {
                (self.end_time - self.start_time) as u64
            } else {
                0
            },
    {
        if self.end_time >= self.start_time {
            self.end_time - self.start_time
        } else {
            0
        }
    }
}

impl Default for ScanResults {
    /// An empty session started at the current time.
    fn default() -> (r: ScanResults)
        ensures
            r.wf() && r.hosts@.len() == 0 && r.end_time == 0,
    {
        ScanResults::new(current_timestamp())
    }
}

pub proof fn lemma_open_le(ps: Seq<PortInfo>)
    ensures
        open_of(ps).len() <= ps.len(),
    decreases ps.len(),
{
    if ps.len() > 0 {
        lemma_open_le(ps.drop_last());
    }
}

pub proof fn lemma_open_total_le(hs: Seq<HostInfo>)
    ensures
        open_total(hs) <= port_total(hs),
    decreases hs.len(),
{
    if hs.len() > 0 {
        lemma_open_total_le(hs.drop_last());
        lemma_open_le(hs.last().ports@);
    }
}

pub proof fn lemma_up_le(hs: Seq<HostInfo>)
    ensures
        up_count(hs) <= hs.len(),
    decreases hs.len(),
{
    if hs.len() > 0 {
        lemma_up_le(hs.drop_last());
    }
}

/// Scan tuning, fixed before a scan starts.
#[derive(Debug, Clone, Copy)]
pub struct ScanConfig {
    pub timeout: TimeSpan,
    pub max_parallel: usize,
    /// Pause between probe submissions.
    pub delay: TimeSpan,
    pub retries: usize,
    pub randomize: bool,
}

impl Default for ScanConfig {
    fn default() -> (r: ScanConfig)
        ensures
            r.timeout.millis == 3000 && r.max_parallel == 100 && r.delay.millis == 0
                && r.retries == 1 && !r.randomize,
    {
        ScanConfig {
            timeout: TimeSpan::from_secs(3),
            max_parallel: 100,
            delay: TimeSpan::from_millis(0),
            retries: 1,
            randomize: false,
        }
    }
}

} // verus!
