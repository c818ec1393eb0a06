//! Ports, protocols, host addresses and the target and port grammars.
use vstd::prelude::*;
use vstd::arithmetic::power2::{pow2, lemma_pow2_adds, lemma_pow2_unfold, lemma_pow2_strictly_increases, lemma2_to64};
use std::str::FromStr;
use crate::error::ScanError;
use crate::text::{
    chars_of, has_char, has_char_exec, lower_of, lowercase, parse_unsigned, parse_unsigned_exec,
    same_chars, split_char, split_on, trim, trim_chars,
};
use crate::address::{ipv4_spec, literal_spec, parse_ipv4, parse_literal};
pub use crate::address::{is_local_segment, is_private_ip, HostAddr};

verus! {

/// An inclusive range of ports, `start..=end`.
#[derive(Debug, Clone, Copy, PartialEq, Eq, Structural)]
pub struct PortRange {
    pub start: u16,
    pub end: u16,
}

impl PortRange {
    pub open spec fn wf(self) -> bool {
        self.start <= self.end
    }

    /// The ports of the range, in ascending order.
    pub open spec fn ports(self) -> Seq<u16> {
        Seq::new((self.end - self.start + 1) as nat, |i: int| (self.start + i) as u16)
    }

    pub fn new(start: u16, end: u16) -> (r: Result<PortRange, ScanError>)
        ensures
            start <= end ==> r == Ok::<PortRange, ScanError>(PortRange { start, end }),
            start > end ==> r == Err::<PortRange, ScanError>(ScanError::FormatError),
    {
        if start > end {
            return Err(ScanError::FormatError);
        }
        Ok(PortRange { start, end })
    }

    pub fn single(port: u16) -> (r: PortRange)
        ensures
            r.start == port && r.end == port,
    {
        PortRange { start: port, end: port }
    }

    pub fn all() -> (r: PortRange)
        ensures
            r.start == 1 && r.end == 65535,
    {
        PortRange { start: 1, end: 65535 }
    }

    /// The well-known port block.
    pub fn common() -> (r: PortRange)
        ensures
            r.start == 1 && r.end == 1024,
    {
        PortRange { start: 1, end: 1024 }
    }

    /// The ports of the range, in ascending order.
    pub fn iter(&self) -> (r: Vec<u16>)
        requires
            self.wf(),
        ensures
            r@ == self.ports(),
    {
        let mut r: Vec<u16> = Vec::new();
        let mut p: u16 = self.start;
        loop
            invariant_except_break
                self.start <= p <= self.end,
                r@ == self.ports().take(p - self.start),
            ensures
                r@ == self.ports(),
            decreases self.end - p,
        {
            r.push(p);
            assert(r@ =~= self.ports().take(p - self.start + 1));
            if p == self.end {
                assert(r@ =~= self.ports());
                break;
            }
            p = p + 1;
        }
        r
    }

    pub fn contains(&self, port: u16) -> (r: bool)
        ensures
            r == (self.start <= port <= self.end),
    {
        port >= self.start && port <= self.end
    }

    pub fn count(&self) -> (r: usize)
        requires
            self.wf(),
        ensures
            r == self.end - self.start + 1,
    {
        (self.end - self.start) as usize + 1
    }

    /// Reads `N` or `N-M`.
    pub fn parse(s: &str) -> (r: Result<PortRange, ScanError>)
        ensures
            r == range_result(port_range_spec(s@)),
    {
        let cs = chars_of(s);
        parse_range_chars(&cs)
    }
}

impl FromStr for PortRange {
    type Err = ScanError;

    fn from_str(s: &str) -> Result<PortRange, ScanError> {
        PortRange::parse(s)
    }
}

pub open spec fn range_result(o: Option<PortRange>) -> Result<PortRange, ScanError> {
    match o {
        Some(r) => Ok(r),
        None => Err(ScanError::FormatError),
    }
}

/// A port range in the grammar `N | N-M`, with `N <= M`.
pub open spec fn port_range_spec(s: Seq<char>) -> Option<PortRange> {
    if has_char(s, '-') {
        let parts = split_on(s, '-');
        if parts.len() != 2 {
            None
        } else {
            match (parse_unsigned(parts[0], 65535), parse_unsigned(parts[1], 65535)) {
                (Some(a), Some(b)) => if a <= b {
                    Some(PortRange { start: a as u16, end: b as u16 })
                } else {
                    None
                },
                _ => None,
            }
        }
    } else {
        match parse_unsigned(s, 65535) {
            Some(p) => Some(PortRange { start: p as u16, end: p as u16 }),
            None => None,
        }
    }
}

/// The comma-separated list `token(,token)*`, each token trimmed and read
/// as a port range; `None` when any token fails.
pub open spec fn port_list_spec(s: Seq<char>) -> Option<Seq<PortRange>> {
    let parts = split_on(s, ',');
    if forall|i: int| 0 <= i < parts.len() ==> (#[trigger] port_range_spec(trim(parts[i]))) is Some {
        Some(Seq::new(parts.len(), |i: int| port_range_spec(trim(parts[i]))->0))
    } else {
        None
    }
}

/// The ports of each range, concatenated in list order.
pub open spec fn expand_ranges(rs: Seq<PortRange>) -> Seq<u16>
    decreases rs.len(),
{
    if rs.len() == 0 {
        Seq::empty()
    } else {
        expand_ranges(rs.drop_last()) + rs.last().ports()
    }
}

pub fn parse_range_chars(cs: &Vec<char>) -> (r: Result<PortRange, ScanError>)
    ensures
        r == range_result(port_range_spec(cs@)),
{
    if has_char_exec(cs, '-') {
        let parts = split_char(cs, '-');
        assert(parts@.len() == split_on(cs@, '-').len());
        if parts.len() != 2 {
            return Err(ScanError::FormatError);
        }
        assert(parts@[0]@ == split_on(cs@, '-')[0]);
        assert(parts@[1]@ == split_on(cs@, '-')[1]);
        let a = parse_unsigned_exec(&parts[0], 65535);
        let b = parse_unsigned_exec(&parts[1], 65535);
        match (a, b) {
            (Some(a), Some(b)) => PortRange::new(a as u16, b as u16),
            _ => Err(ScanError::FormatError),
        }
    } else {
        match parse_unsigned_exec(cs, 65535) {
            Some(p) => Ok(PortRange::single(p as u16)),
            None => Err(ScanError::FormatError),
        }
    }
}

/// Reads a port list `token(,token)*`; overlapping ranges are kept as given.
pub fn parse_port_list(s: &str) -> (r: Result<Vec<PortRange>, ScanError>)
    ensures
        match r {
            Ok(v) => port_list_spec(s@) == Some(v@),
            Err(e) => port_list_spec(s@) is None && e == ScanError::FormatError,
        },
{
    let cs = chars_of(s);
    let parts = split_char(&cs, ',');
    let ghost ps = split_on(s@, ',');
    assert(parts@.len() == ps.len());
    let mut v: Vec<PortRange> = Vec::new();
    let mut i: usize = 0;
    while i < parts.len()
        invariant
            ps == split_on(s@, ','),
            parts@.map_values(|t: Vec<char>| t@) == ps,
            i <= parts.len(),
            v@.len() == i,
            forall|j: int|
                0 <= j < i ==> #[trigger] port_range_spec(trim(ps[j])) == Some(v@[j]),
        decreases parts.len() - i,
    {
        assert(parts@[i as int]@ == ps[i as int]);
        let t = trim_chars(&parts[i]);
        match parse_range_chars(&t) {
            Ok(range) => {
                v.push(range);
            },
            Err(_) => {
                return Err(ScanError::FormatError);
            },
        }
        i += 1;
    }
    assert(v@ =~= Seq::new(ps.len(), |j: int| port_range_spec(trim(ps[j]))->0));
    Ok(v)
}

/// All ports of the ranges, each range in ascending order, ranges in list order.
pub fn expand_port_ranges(ranges: &Vec<PortRange>) -> (r: Vec<u16>)
    requires
        forall|i: int| 0 <= i < ranges.len() ==> (#[trigger] ranges@[i]).wf(),
    ensures
        r@ == expand_ranges(ranges@),
{
    let mut r: Vec<u16> = Vec::new();
    let mut i: usize = 0;
    while i < ranges.len()
        invariant
            i <= ranges.len(),
            forall|k: int| 0 <= k < ranges.len() ==> (#[trigger] ranges@[k]).wf(),
            r@ == expand_ranges(ranges@.take(i as int)),
        decreases ranges.len() - i,
    {
        let ports = ranges[i].iter();
        let mut k: usize = 0;
        let ghost before = r@;
        while k < ports.len()
            invariant
                k <= ports.len(),
                r@ == before + ports@.take(k as int),
            decreases ports.len() - k,
        {
            r.push(ports[k]);
            k += 1;
            assert(r@ =~= before + ports@.take(k as int));
        }
        assert(ports@.take(ports.len() as int) =~= ports@);
        assert(ranges@.take(i + 1).drop_last() =~= ranges@.take(i as int));
        i += 1;
    }
    assert(ranges@.take(i as int) =~= ranges@);
    r
}

/// Transport or network protocol of a probe.
#[derive(Debug, Clone, Copy, PartialEq, Eq, Structural)]
pub enum Protocol {
    Tcp,
    Udp,
    Icmp,
}

/// The protocol whose lower-case name is `l`.
pub open spec fn protocol_named(l: Seq<char>) -> Option<Protocol> {
    if l == "tcp"@ {
        Some(Protocol::Tcp)
    } else if l == "udp"@ {
        Some(Protocol::Udp)
    } else if l == "icmp"@ {
        Some(Protocol::Icmp)
    } else {
        None
    }
}

pub open spec fn protocol_result(o: Option<Protocol>) -> Result<Protocol, ScanError> {
    match o {
        Some(p) => Ok(p),
        None => Err(ScanError::FormatError),
    }
}

impl Protocol {
    pub open spec fn name(self) -> Seq<char> {
        match self {
            Protocol::Tcp => "TCP"@,
            Protocol::Udp => "UDP"@,
            Protocol::Icmp => "ICMP"@,
        }
    }

    pub fn as_str(&self) -> (r: &'static str)
        ensures
            r@ == self.name(),
    {
        match self {
            Protocol::Tcp => "TCP",
            Protocol::Udp => "UDP",
            Protocol::Icmp => "ICMP",
        }
    }

    /// The IP protocol number.
    pub fn to_protocol_number(&self) -> (r: u8)
        ensures
            r == match self {
                Protocol::Tcp => 6u8,
                Protocol::Udp => 17u8,
                Protocol::Icmp => 1u8,
            },
    {
        match self {
            Protocol::Tcp => 6,
            Protocol::Udp => 17,
            Protocol::Icmp => 1,
        }
    }

    /// Reads a protocol name that is already in lower case.
    pub fn from_lowercase(l: &str) -> (r: Result<Protocol, ScanError>)
        ensures
            r == protocol_result(protocol_named(l@)),
    {
        let cs = chars_of(l);
        if same_chars(&cs, &chars_of("tcp")) {
            Ok(Protocol::Tcp)
        } else if same_chars(&cs, &chars_of("udp")) {
            Ok(Protocol::Udp)
        } else if same_chars(&cs, &chars_of("icmp")) {
            Ok(Protocol::Icmp)
        } else {
            Err(ScanError::FormatError)
        }
    }

    /// Reads a protocol name in any case.
    pub fn parse(s: &str) -> (r: Result<Protocol, ScanError>)
        ensures
            r == protocol_result(protocol_named(lower_of(s@))),
    {
        let l = lowercase(s);
        Protocol::from_lowercase(l.as_str())
    }
}

impl FromStr for Protocol {
    type Err = ScanError;

    fn from_str(s: &str) -> Result<Protocol, ScanError> {
        Protocol::parse(s)
    }
}

/// The ports probed by a quick scan.
pub fn get_common_ports() -> (r: Vec<u16>)
    ensures
        r@ == seq![
            21u16, 22, 23, 25, 53, 80, 110, 111, 135, 139, 143, 443, 993, 995, 1723, 3306, 3389,
            5432, 5900, 8080,
        ],
{
    vec![
        21, 22, 23, 25, 53, 80, 110, 111, 135, 139, 143, 443, 993, 995, 1723, 3306, 3389, 5432,
        5900, 8080,
    ]
}

/// The well-known service name of `(protocol, port)`.
pub open spec fn service_name_spec(port: u16, protocol: Protocol) -> Option<Seq<char>> {
    let tcp = protocol == Protocol::Tcp;
    let tcp_or_udp = protocol == Protocol::Tcp || protocol == Protocol::Udp;
    if tcp && port == 21 {
        Some("ftp"@)
    } else if tcp && port == 22 {
        Some("ssh"@)
    } else if tcp && port == 23 {
        Some("telnet"@)
    } else if tcp && port == 25 {
        Some("smtp"@)
    } else if tcp_or_udp && port == 53 {
        Some("dns"@)
    } else if tcp && port == 80 {
        Some("http"@)
    } else if tcp && port == 110 {
        Some("pop3"@)
    } else if tcp_or_udp && port == 111 {
        Some("rpc"@)
    } else if tcp && port == 135 {
        Some("msrpc"@)
    } else if tcp_or_udp && port == 139 {
        Some("netbios"@)
    } else if tcp && port == 143 {
        Some("imap"@)
    } else if tcp && port == 443 {
        Some("https"@)
    } else if tcp && port == 993 {
        Some("imaps"@)
    } else if tcp && port == 995 {
        Some("pop3s"@)
    } else if tcp && port == 1723 {
        Some("pptp"@)
    } else if tcp && port == 3306 {
        Some("mysql"@)
    } else if tcp && port == 3389 {
        Some("rdp"@)
    } else if tcp && port == 5432 {
        Some("postgresql"@)
    } else if tcp && port == 5900 {
        Some("vnc"@)
    } else if tcp && port == 8080 {
        Some("http-alt"@)
    } else {
        None
    }
}

pub open spec fn str_view(o: Option<&str>) -> Option<Seq<char>> {
    match o {
        Some(s) => Some(s@),
        None => None,
    }
}

/// The well-known service name of a port.
pub fn get_service_name(port: u16, protocol: Protocol) -> (r: Option<&'static str>)
    ensures
        str_view(r) == service_name_spec(port, protocol),
{
    let tcp = protocol == Protocol::Tcp;
    let tcp_or_udp = protocol == Protocol::Tcp || protocol == Protocol::Udp;
    if tcp && port == 21 {
        Some("ftp")
    } else if tcp && port == 22 {
        Some("ssh")
    } else if tcp && port == 23 {
        Some("telnet")
    } else if tcp && port == 25 {
        Some("smtp")
    } else if tcp_or_udp && port == 53 {
        Some("dns")
    } else if tcp && port == 80 {
        Some("http")
    } else if tcp && port == 110 {
        Some("pop3")
    } else if tcp_or_udp && port == 111 {
        Some("rpc")
    } else if tcp && port == 135 {
        Some("msrpc")
    } else if tcp_or_udp && port == 139 {
        Some("netbios")
    } else if tcp && port == 143 {
        Some("imap")
    } else if tcp && port == 443 {
        Some("https")
    } else if tcp && port == 993 {
        Some("imaps")
    } else if tcp && port == 995 {
        Some("pop3s")
    } else if tcp && port == 1723 {
        Some("pptp")
    } else if tcp && port == 3306 {
        Some("mysql")
    } else if tcp && port == 3389 {
        Some("rdp")
    } else if tcp && port == 5432 {
        Some("postgresql")
    } else if tcp && port == 5900 {
        Some("vnc")
    } else if tcp && port == 8080 {
        Some("http-alt")
    } else {
        None
    }
}

/// A resolved target: an address and, when it came from a name, that name.
#[derive(Debug, Clone)]
pub struct HostTarget {
    pub addr: HostAddr,
    pub hostname: Option<String>,
}

impl HostTarget {
    pub fn new(addr: HostAddr) -> (r: HostTarget)
        ensures
            r.addr == addr && r.hostname is None,
    {
        HostTarget { addr, hostname: None }
    }

    pub fn with_hostname(addr: HostAddr, hostname: String) -> (r: HostTarget)
        ensures
            r.addr == addr && r.hostname == Some(hostname),
    {
        HostTarget { addr, hostname: Some(hostname) }
    }
}

/// The usable hosts of the IPv4 block `base/prefix`: every address strictly
/// between the network and the broadcast address.
pub open spec fn cidr_hosts(base: u32, prefix: nat) -> Seq<u32> {
    let size = pow2((32 - prefix) as nat);
    let network = (base as nat / size) * size;
    let n: nat = if size >= 2 {
        (size - 2) as nat
    } else {
        0
    };
    Seq::new(n, |i: int| (network + 1 + i) as u32)
}

/// The addresses `a..=b`.
pub open spec fn span_hosts(a: u32, b: u32) -> Seq<u32> {
    Seq::new((b - a + 1) as nat, |i: int| (a + i) as u32)
}

/// What a target specification stands for.
pub enum TargetPlan {
    /// Addresses that the specification names itself.
    Hosts(Vec<HostTarget>),
    /// A name that only a lookup can turn into addresses.
    Lookup(String),
}

/// The meaning of a target specification: `Ok(Ok(addrs))` for addresses it
/// names, `Ok(Err(name))` for a name to look up.
pub open spec fn target_spec(s: Seq<char>) -> Result<Result<Seq<HostAddr>, Seq<char>>, ScanError> {
    if has_char(s, '/') {
        let ps = split_on(s, '/');
        if ps.len() != 2 {
            Err(ScanError::FormatError)
        } else {
            match (ipv4_spec(ps[0]), parse_unsigned(ps[1], 255)) {
                (Some(base), Some(prefix)) => if prefix <= 32 {
                    Ok(Ok(v4_all(cidr_hosts(base, prefix))))
                } else {
                    Err(ScanError::FormatError)
                },
                _ => Err(ScanError::FormatError),
            }
        }
    } else if has_char(s, '-') {
        let ps = split_on(s, '-');
        if ps.len() != 2 {
            Err(ScanError::FormatError)
        } else {
            match (ipv4_spec(ps[0]), ipv4_spec(ps[1])) {
                (Some(a), Some(b)) => if a <= b {
                    Ok(Ok(v4_all(span_hosts(a, b))))
                } else {
                    Err(ScanError::FormatError)
                },
                _ => Err(ScanError::FormatError),
            }
        }
    } else {
        match literal_spec(s) {
            Some(a) => Ok(Ok(seq![a])),
            None => Ok(Err(s)),
        }
    }
}

pub open spec fn v4_all(xs: Seq<u32>) -> Seq<HostAddr> {
    xs.map_values(|x: u32| HostAddr::V4(x))
}

/// The targets are exactly the addresses `addrs`, in order, without names.
pub open spec fn targets_are(v: Seq<HostTarget>, addrs: Seq<HostAddr>) -> bool {
    v.len() == addrs.len() && forall|i: int|
        0 <= i < v.len() ==> (#[trigger] v[i]).addr == addrs[i] && v[i].hostname is None
}

pub open spec fn plan_matches(r: Result<TargetPlan, ScanError>, s: Seq<char>) -> bool {
    match (r, target_spec(s)) {
        (Ok(TargetPlan::Hosts(v)), Ok(Ok(addrs))) => targets_are(v@, addrs),
        (Ok(TargetPlan::Lookup(n)), Ok(Err(name))) => n@ == name,
        (Err(e), Err(f)) => e == f,
        _ => false,
    }
}

fn push_v4_span(v: &mut Vec<HostTarget>, first: u64, n: u64)
    requires
        first + n <= 0x1_0000_0000,
    ensures
        final(v)@.len() == old(v)@.len() + n,
        forall|i: int| 0 <= i < old(v)@.len() ==> final(v)@[i] == old(v)@[i],
        forall|i: int|
            0 <= i < n ==> (#[trigger] final(v)@[old(v)@.len() + i]).addr == HostAddr::V4(
                (first + i) as u32,
            ) && final(v)@[old(v)@.len() + i].hostname is None,
{
    let mut k: u64 = 0;
    while k < n
        invariant
            first + n <= 0x1_0000_0000,
            k <= n,
            v@.len() == old(v)@.len() + k,
            forall|i: int| 0 <= i < old(v)@.len() ==> v@[i] == old(v)@[i],
            forall|i: int|
                0 <= i < k ==> (#[trigger] v@[old(v)@.len() + i]).addr == HostAddr::V4(
                    (first + i) as u32,
                ) && v@[old(v)@.len() + i].hostname is None,
        decreases n - k,
    {
        v.push(HostTarget::new(HostAddr::V4((first + k) as u32)));
        k += 1;
    }
}

proof fn lemma_block_fits(base: u32, prefix: nat)
    requires
        prefix <= 32,
    ensures
        (base as nat / pow2((32 - prefix) as nat)) * pow2((32 - prefix) as nat) + pow2(
            (32 - prefix) as nat,
        ) <= 0x1_0000_0000,
{
    let size = pow2((32 - prefix) as nat);
    let k = pow2(prefix);
    lemma_pow2_adds((32 - prefix) as nat, prefix);
    lemma2_to64();
    assert(size * k == 0x1_0000_0000);
    vstd::arithmetic::power2::lemma_pow2_pos((32 - prefix) as nat);
    let q = base as nat / size;
    assert(q * size <= base) by (nonlinear_arith)
        requires
            q == base as nat / size,
            size > 0,
    ;
    assert(q < k) by (nonlinear_arith)
        requires
            q * size <= base,
            base < size * k,
            size > 0,
    ;
    assert(q * size + size <= k * size) by (nonlinear_arith)
        requires
            q < k,
            size > 0,
    ;
}

/// `2^e` for `e <= 32`.
fn pow2_u64(e: u64) -> (r: u64)
    requires
        e <= 32,
    ensures
        r == pow2(e as nat),
{
    let mut r: u64 = 1;
    let mut k: u64 = 0;
    proof {
        lemma2_to64();
    }
    while k < e
        invariant
            k <= e <= 32,
            r == pow2(k as nat),
            pow2(32) == 0x1_0000_0000,
        decreases e - k,
    {
        proof {
            lemma_pow2_unfold((k + 1) as nat);
            lemma_pow2_strictly_increases(k as nat, 32);
        }
        r = r * 2;
        k += 1;
    }
    r
}

/// The usable hosts of `base/prefix`.
fn cidr_targets(base: u32, prefix: u32) -> (r: Vec<HostTarget>)
    requires
        prefix <= 32,
    ensures
        targets_are(r@, v4_all(cidr_hosts(base, prefix as nat))),
{
    let size = pow2_u64((32 - prefix) as u64);
    proof {
        lemma_block_fits(base, prefix as nat);
        vstd::arithmetic::power2::lemma_pow2_pos((32 - prefix) as nat);
    }
    let network = (base as u64 / size) * size;
    let n: u64 = if size >= 2 {
        size - 2
    } else {
        0
    };
    let mut v: Vec<HostTarget> = Vec::new();
    push_v4_span(&mut v, network + 1, n);
    let ghost hosts = cidr_hosts(base, prefix as nat);
    assert(hosts.len() == v@.len());
    assert forall|i: int| 0 <= i < v@.len() implies (#[trigger] v@[i]).addr == v4_all(hosts)[i]
        && v@[i].hostname is None by {
        assert(v@[0 + i].addr == HostAddr::V4((network + 1 + i) as u32));
    }
    v
}

/// Reads a target specification: `a.b.c.d/prefix`, `ipA-ipB`, an address
/// literal, or else a name to look up.
pub fn parse_targets(target: &str) -> (r: Result<TargetPlan, ScanError>)
    ensures
        plan_matches(r, target@),
{
    let s = chars_of(target);
    if has_char_exec(&s, '/') {
        let ps = split_char(&s, '/');
        let ghost sp = split_on(s@, '/');
        assert(ps@.len() == sp.len());
        if ps.len() != 2 {
            return Err(ScanError::FormatError);
        }
        assert(ps@[0]@ == sp[0] && ps@[1]@ == sp[1]);
        match (parse_ipv4(&ps[0]), parse_unsigned_exec(&ps[1], 255)) {
            (Some(base), Some(prefix)) => {
                if prefix > 32 {
                    return Err(ScanError::FormatError);
                }
                let v = cidr_targets(base, prefix);
                assert(target_spec(s@) == Ok::<Result<Seq<HostAddr>, Seq<char>>, ScanError>(
                    Ok(v4_all(cidr_hosts(base, prefix as nat))),
                ));
                Ok(TargetPlan::Hosts(v))
            },
            _ => Err(ScanError::FormatError),
        }
    } else if has_char_exec(&s, '-') {
        let ps = split_char(&s, '-');
        let ghost sp = split_on(s@, '-');
        assert(ps@.len() == sp.len());
        if ps.len() != 2 {
            return Err(ScanError::FormatError);
        }
        assert(ps@[0]@ == sp[0] && ps@[1]@ == sp[1]);
        match (parse_ipv4(&ps[0]), parse_ipv4(&ps[1])) {
            (Some(a), Some(b)) => {
                if a > b {
                    return Err(ScanError::FormatError);
                }
                let mut v: Vec<HostTarget> = Vec::new();
                push_v4_span(&mut v, a as u64, (b - a) as u64 + 1);
                let ghost hosts = span_hosts(a, b);
                assert forall|i: int| 0 <= i < v@.len() implies (#[trigger] v@[i]).addr
                    == v4_all(hosts)[i] && v@[i].hostname is None by {
                    assert(v@[0 + i].addr == HostAddr::V4((a + i) as u32));
                }
                assert(targets_are(v@, v4_all(span_hosts(a, b))));
                Ok(TargetPlan::Hosts(v))
            },
            _ => Err(ScanError::FormatError),
        }
    } else {
        match parse_literal(&s) {
            Some(a) => {
                let mut v: Vec<HostTarget> = Vec::new();
                v.push(HostTarget::new(a));
                assert(targets_are(v@, seq![a]));
                Ok(TargetPlan::Hosts(v))
            },
            None => Ok(TargetPlan::Lookup(target.to_owned())),
        }
    }
}

/// The targets of a name lookup: each address it gave, tagged with the
/// name; a failed lookup is a resolution error.
pub fn targets_for_lookup(name: &str, addrs: Option<&Vec<HostAddr>>) -> (r: Result<
    Vec<HostTarget>,
    ScanError,
>)
    ensures
        addrs is None ==> r == Err::<Vec<HostTarget>, ScanError>(ScanError::ResolutionError),
        addrs is Some ==> (r matches Ok(v) && v@.len() == addrs->0@.len() && forall|i: int|
            0 <= i < v@.len() ==> (#[trigger] v@[i]).addr == addrs->0@[i] && v@[i].hostname is Some
                && v@[i].hostname->0@ == name@),
{
    let addrs = match addrs {
        Some(a) => a,
        None => {
            return Err(ScanError::ResolutionError);
        },
    };
    let mut r: Vec<HostTarget> = Vec::new();
    let mut i: usize = 0;
    while i < addrs.len()
        invariant
            i <= addrs.len(),
            r@.len() == i,
            forall|k: int|
                0 <= k < i ==> (#[trigger] r@[k]).addr == addrs@[k] && r@[k].hostname is Some
                    && r@[k].hostname->0@ == name@,
        decreases addrs.len() - i,
    {
        r.push(HostTarget::with_hostname(addrs[i], name.to_owned()));
        i += 1;
    }
    Ok(r)
}

} // verus!
