//! Host addresses: IPv4 and IPv6 literals as `Ipv4Addr` and `Ipv6Addr`
//! read them, and the address spaces that discovery cares about.
use vstd::prelude::*;
use std::str::FromStr;
use crate::error::ScanError;
use crate::text::{
    all_digits, chars_of, contains, digits_value, find, first_index, lemma_first_unique,
    parse_unsigned_exec, slice_of, split_char, split_on,
};

verus! {

/// A host address: IPv4 as its 32-bit value, IPv6 as its 128-bit value.
#[derive(Debug, Clone, Copy, PartialEq, Eq, Structural)]
pub enum HostAddr {
    V4(u32),
    V6(u128),
}

/// One dotted-quad part as `Ipv4Addr`'s parser reads it: one to three
/// digits, no leading zero, at most 255.
pub open spec fn octet_spec(p: Seq<char>) -> Option<nat> {
    if 1 <= p.len() <= 3 && all_digits(p) && (p.len() > 1 ==> p[0] != '0') && digits_value(p)
        <= 255 {
        Some(digits_value(p))
    } else {
        None
    }
}

/// A dotted-quad IPv4 address, as its 32-bit value.
pub open spec fn ipv4_spec(s: Seq<char>) -> Option<u32> {
    let ps = split_on(s, '.');
    if ps.len() == 4 && octet_spec(ps[0]) is Some && octet_spec(ps[1]) is Some && octet_spec(
        ps[2],
    ) is Some && octet_spec(ps[3]) is Some {
        Some(
            (octet_spec(ps[0])->0 * 16777216 + octet_spec(ps[1])->0 * 65536 + octet_spec(ps[2])->0
                * 256 + octet_spec(ps[3])->0) as u32,
        )
    } else {
        None
    }
}

fn parse_octet(p: &Vec<char>) -> (r: Option<u32>)
    ensures
        match r {
            Some(v) => octet_spec(p@) == Some(v as nat),
            None => octet_spec(p@) is None,
        },
{
    if p.len() < 1 || p.len() > 3 || !('0' <= p[0] && p[0] <= '9') {
        return None;
    }
    if p.len() > 1 && p[0] == '0' {
        return None;
    }
    let r = parse_unsigned_exec(p, 255);
    assert(p@.len() > 0 && p@[0] != '+');
    r
}

/// Reads a dotted-quad IPv4 address.
pub fn parse_ipv4(s: &Vec<char>) -> (r: Option<u32>)
    ensures
        r == ipv4_spec(s@),
{
    let ps = split_char(s, '.');
    let ghost sp = split_on(s@, '.');
    assert(ps@.len() == sp.len());
    if ps.len() != 4 {
        return None;
    }
    assert(ps@[0]@ == sp[0] && ps@[1]@ == sp[1] && ps@[2]@ == sp[2] && ps@[3]@ == sp[3]);
    match (parse_octet(&ps[0]), parse_octet(&ps[1]), parse_octet(&ps[2]), parse_octet(&ps[3])) {
        (Some(a), Some(b), Some(c), Some(d)) => Some(a * 16777216 + b * 65536 + c * 256 + d),
        _ => None,
    }
}

pub open spec fn is_hex(c: char) -> bool {
    ('0' <= c <= '9') || ('a' <= c <= 'f') || ('A' <= c <= 'F')
}

pub open spec fn hex_value(c: char) -> nat {
    if '0' <= c <= '9' {
        (c as u32 - '0' as u32) as nat
    } else if 'a' <= c <= 'f' {
        (c as u32 - 'a' as u32 + 10) as nat
    } else {
        (c as u32 - 'A' as u32 + 10) as nat
    }
}

pub open spec fn hex_digits_value(s: Seq<char>) -> nat
    decreases s.len(),
{
    if s.len() == 0 {
        0
    } else {
        hex_digits_value(s.drop_last()) * 16 + hex_value(s.last())
    }
}

/// One IPv6 group: one to four hexadecimal digits.
pub open spec fn hex_group(p: Seq<char>) -> Option<nat> {
    if 1 <= p.len() <= 4 && forall|i: int| 0 <= i < p.len() ==> is_hex(#[trigger] p[i]) {
        Some(hex_digits_value(p))
    } else {
        None
    }
}

pub open spec fn all_groups(ps: Seq<Seq<char>>) -> bool {
    forall|i: int| 0 <= i < ps.len() ==> (#[trigger] hex_group(ps[i])) is Some
}

pub open spec fn group_values(ps: Seq<Seq<char>>) -> Seq<nat> {
    ps.map_values(|p: Seq<char>| hex_group(p)->0)
}

/// The colon-separated pieces of a text; an empty text has none.
pub open spec fn pieces(s: Seq<char>) -> Seq<Seq<char>> {
    if s.len() == 0 {
        Seq::empty()
    } else {
        split_on(s, ':')
    }
}

/// The 16-bit values of a list of groups whose last piece may instead be
/// an embedded IPv4 address, worth two groups.
pub open spec fn tail_values(ps: Seq<Seq<char>>) -> Option<Seq<nat>> {
    if ps.len() == 0 {
        Some(Seq::empty())
    } else if all_groups(ps) {
        Some(group_values(ps))
    } else if all_groups(ps.drop_last()) && ipv4_spec(ps.last()) is Some {
        let v = ipv4_spec(ps.last())->0 as nat;
        Some(group_values(ps.drop_last()) + seq![v / 65536, v % 65536])
    } else {
        None
    }
}

/// The eight 16-bit groups of an IPv6 address in the text form that
/// `Ipv6Addr`'s parser reads: eight groups, or fewer around one `::` that
/// stands for at least one zero group; an IPv4 address may end it.
pub open spec fn ipv6_groups(s: Seq<char>) -> Option<Seq<nat>> {
    if contains(s, "::"@) {
        let i = first_index(s, "::"@);
        let hp = pieces(s.take(i));
        let tp = pieces(s.skip(i + 2));
        if all_groups(hp) && tail_values(tp) is Some && hp.len() + tail_values(tp)->0.len() <= 7 {
            let tv = tail_values(tp)->0;
            Some(
                group_values(hp) + Seq::new((8 - hp.len() - tv.len()) as nat, |k: int| 0nat) + tv,
            )
        } else {
            None
        }
    } else {
        match tail_values(split_on(s, ':')) {
            Some(v) => if v.len() == 8 {
                Some(v)
            } else {
                None
            },
            None => None,
        }
    }
}

/// The number whose base-65536 digits are `gs`, most significant first.
pub open spec fn groups_value(gs: Seq<nat>) -> nat
    decreases gs.len(),
{
    if gs.len() == 0 {
        0
    } else {
        groups_value(gs.drop_last()) * 65536 + gs.last()
    }
}

pub open spec fn ipv6_spec(s: Seq<char>) -> Option<u128> {
    match ipv6_groups(s) {
        Some(gs) => Some(groups_value(gs) as u128),
        None => None,
    }
}

pub open spec fn pow65536(k: nat) -> nat
    decreases k,
{
    if k == 0 {
        1
    } else {
        65536 * pow65536((k - 1) as nat)
    }
}

fn hex_digit(c: char) -> (r: Option<u32>)
    ensures
        match r {
            Some(v) => is_hex(c) && v == hex_value(c),
            None => !is_hex(c),
        },
{
    if '0' <= c && c <= '9' {
        Some((c as u32) - ('0' as u32))
    } else if 'a' <= c && c <= 'f' {
        Some((c as u32) - ('a' as u32) + 10)
    } else if 'A' <= c && c <= 'F' {
        Some((c as u32) - ('A' as u32) + 10)
    } else {
        None
    }
}

proof fn lemma_hex_bound(s: Seq<char>)
    requires
        forall|i: int| 0 <= i < s.len() ==> is_hex(#[trigger] s[i]),
    ensures
        s.len() <= 4 ==> hex_digits_value(s) < 65536,
        hex_digits_value(s) < pow16(s.len()),
    decreases s.len(),
{
    if s.len() > 0 {
        lemma_hex_bound(s.drop_last());
        assert(hex_value(s.last()) < 16);
    }
    if s.len() <= 4 {
        assert(pow16(s.len()) <= 65536) by {
            reveal_with_fuel(pow16, 5);
        }
    }
}

pub open spec fn pow16(k: nat) -> nat
    decreases k,
{
    if k == 0 {
        1
    } else {
        16 * pow16((k - 1) as nat)
    }
}

fn parse_hex_group(p: &Vec<char>) -> (r: Option<u32>)
    ensures
        match r {
            Some(v) => hex_group(p@) == Some(v as nat) && v < 65536,
            None => hex_group(p@) is None,
        },
{
    if p.len() < 1 || p.len() > 4 {
        return None;
    }
    let mut v: u32 = 0;
    let mut k: usize = 0;
    while k < p.len()
        invariant
            k <= p@.len() <= 4,
            forall|i: int| 0 <= i < k ==> is_hex(#[trigger] p@[i]),
            v == hex_digits_value(p@.take(k as int)),
            v < pow16(k as nat),
        decreases p.len() - k,
    {
        match hex_digit(p[k]) {
            Some(d) => {
                assert(p@.take(k + 1).drop_last() =~= p@.take(k as int));
                assert(pow16(k as nat) <= 4096) by {
                    reveal_with_fuel(pow16, 5);
                }
                assert(pow16((k + 1) as nat) == 16 * pow16(k as nat));
                v = v * 16 + d;
                k += 1;
            },
            None => {
                return None;
            },
        }
    }
    assert(p@.take(k as int) =~= p@);
    assert(pow16(p@.len()) <= 65536) by {
        reveal_with_fuel(pow16, 5);
    }
    Some(v)
}

/// The values of pieces that are all groups, or `None`.
fn parse_group_list(ps: &Vec<Vec<char>>, upto: usize) -> (r: Option<Vec<u32>>)
    requires
        upto <= ps@.len(),
    ensures
        match r {
            Some(v) => all_groups(ps@.map_values(|t: Vec<char>| t@).take(upto as int)) && v@.map_values(
                |x: u32| x as nat,
            ) == group_values(ps@.map_values(|t: Vec<char>| t@).take(upto as int)),
            None => !all_groups(ps@.map_values(|t: Vec<char>| t@).take(upto as int)),
        },
        r matches Some(v) ==> forall|i: int| 0 <= i < v@.len() ==> #[trigger] v@[i] < 65536,
{
    let ghost pv = ps@.map_values(|t: Vec<char>| t@).take(upto as int);
    let mut v: Vec<u32> = Vec::new();
    let mut k: usize = 0;
    while k < upto
        invariant
            k <= upto <= ps@.len(),
            pv == ps@.map_values(|t: Vec<char>| t@).take(upto as int),
            forall|i: int| 0 <= i < k ==> (#[trigger] hex_group(pv[i])) is Some,
            v@.map_values(|x: u32| x as nat) == group_values(pv.take(k as int)),
            forall|i: int| 0 <= i < v@.len() ==> #[trigger] v@[i] < 65536,
        decreases upto - k,
    {
        assert(pv[k as int] == ps@[k as int]@);
        match parse_hex_group(&ps[k]) {
            Some(g) => {
                let ghost before = v@.map_values(|x: u32| x as nat);
                v.push(g);
                assert(v@.map_values(|x: u32| x as nat) =~= before.push(g as nat));
                k += 1;
                assert(group_values(pv.take(k as int)) =~= group_values(pv.take(k - 1)).push(
                    g as nat,
                ));
            },
            None => {
                assert(!all_groups(pv));
                return None;
            },
        }
    }
    assert(pv.take(k as int) =~= pv);
    Some(v)
}

/// The values of a tail list, whose last piece may be an IPv4 address.
fn parse_tail(ps: &Vec<Vec<char>>) -> (r: Option<Vec<u32>>)
    ensures
        match r {
            Some(v) => tail_values(ps@.map_values(|t: Vec<char>| t@)) == Some(
                v@.map_values(|x: u32| x as nat),
            ),
            None => tail_values(ps@.map_values(|t: Vec<char>| t@)) is None,
        },
        r matches Some(v) ==> forall|i: int| 0 <= i < v@.len() ==> #[trigger] v@[i] < 65536,
{
    let ghost pv = ps@.map_values(|t: Vec<char>| t@);
    if ps.len() == 0 {
        let v: Vec<u32> = Vec::new();
        assert(v@.map_values(|x: u32| x as nat) =~= Seq::<nat>::empty());
        return Some(v);
    }
    assert(pv.take(ps@.len() as int) =~= pv);
    if let Some(v) = parse_group_list(ps, ps.len()) {
        return Some(v);
    }
    let last = ps.len() - 1;
    assert(pv.take(last as int) =~= pv.drop_last());
    match parse_group_list(ps, last) {
        Some(mut v) => {
            assert(pv.last() == ps@[last as int]@);
            match parse_ipv4(&ps[last]) {
                Some(a) => {
                    let ghost before = v@.map_values(|x: u32| x as nat);
                    v.push(a / 65536);
                    v.push(a % 65536);
                    assert(v@.map_values(|x: u32| x as nat) =~= before + seq![
                        a as nat / 65536,
                        a as nat % 65536,
                    ]);
                    Some(v)
                },
                None => None,
            }
        },
        None => None,
    }
}

fn text_pieces(s: &Vec<char>) -> (r: Vec<Vec<char>>)
    ensures
        r@.map_values(|t: Vec<char>| t@) == pieces(s@),
{
    if s.len() == 0 {
        let r: Vec<Vec<char>> = Vec::new();
        assert(r@.map_values(|t: Vec<char>| t@) =~= Seq::<Seq<char>>::empty());
        r
    } else {
        split_char(s, ':')
    }
}

proof fn lemma_groups_value_bound(gs: Seq<nat>)
    requires
        forall|i: int| 0 <= i < gs.len() ==> #[trigger] gs[i] < 65536,
    ensures
        groups_value(gs) < pow65536(gs.len()),
    decreases gs.len(),
{
    if gs.len() > 0 {
        lemma_groups_value_bound(gs.drop_last());
        let a = groups_value(gs.drop_last());
        let p = pow65536((gs.len() - 1) as nat);
        assert(a * 65536 + gs.last() < p * 65536) by (nonlinear_arith)
            requires
                a < p,
                gs.last() < 65536,
        ;
    }
}

/// Reads an IPv6 address.
pub fn parse_ipv6(s: &Vec<char>) -> (r: Option<u128>)
    ensures
        r == ipv6_spec(s@),
{
    let sep = chars_of("::");
    let groups: Vec<u32> = match find(s, &sep) {
        Some(i) => {
            proof {
                lemma_first_unique(s@, sep@, i as int);
                reveal_strlit("::");
            }
            assert(sep@.len() == 2);
            let n = s.len();
            let head = slice_of(s, 0, i);
            let tail = slice_of(s, i + 2, n);
            assert(head@ =~= s@.take(i as int));
            assert(tail@ =~= s@.skip(i + 2));
            let hp = text_pieces(&head);
            let tp = text_pieces(&tail);
            let hv = match parse_group_list(&hp, hp.len()) {
                Some(v) => v,
                None => {
                    assert(hp@.map_values(|t: Vec<char>| t@).take(hp@.len() as int) =~= pieces(head@));
                    return None;
                },
            };
            assert(hp@.map_values(|t: Vec<char>| t@).take(hp@.len() as int) =~= pieces(head@));
            let tv = match parse_tail(&tp) {
                Some(v) => v,
                None => {
                    return None;
                },
            };
            if hv.len() > 7 || tv.len() > 7 - hv.len() {
                return None;
            }
            let mut g = hv;
            let zeros = 8 - g.len() - tv.len();
            let ghost hvals = g@.map_values(|x: u32| x as nat);
            let mut z: usize = 0;
            while z < zeros
                invariant
                    z <= zeros,
                    g@.map_values(|x: u32| x as nat) == hvals + Seq::new(z as nat, |k: int| 0nat),
                    forall|i: int| 0 <= i < g@.len() ==> #[trigger] g@[i] < 65536,
                decreases zeros - z,
            {
                let ghost prev = g@;
                g.push(0);
                assert(g@ == prev.push(0u32));
                assert(g@.map_values(|x: u32| x as nat) =~= prev.map_values(|x: u32| x as nat).push(0nat));
                z += 1;
                assert(Seq::new(z as nat, |k: int| 0nat) =~= Seq::new((z - 1) as nat, |k: int| 0nat).push(0nat));
                assert(g@.map_values(|x: u32| x as nat) =~= hvals + Seq::new(z as nat, |k: int| 0nat));
            }
            let ghost before = g@.map_values(|x: u32| x as nat);
            let mut k: usize = 0;
            while k < tv.len()
                invariant
                    k <= tv@.len(),
                    g@.map_values(|x: u32| x as nat) == before + tv@.map_values(|x: u32| x as nat).take(k as int),
                    forall|i: int| 0 <= i < g@.len() ==> #[trigger] g@[i] < 65536,
                    forall|i: int| 0 <= i < tv@.len() ==> #[trigger] tv@[i] < 65536,
                decreases tv.len() - k,
            {
                let ghost prev = g@;
                g.push(tv[k]);
                assert(g@ == prev.push(tv@[k as int]));
                assert(g@.map_values(|x: u32| x as nat) =~= prev.map_values(|x: u32| x as nat).push(tv@[k as int] as nat));
                k += 1;
                assert(tv@.map_values(|x: u32| x as nat).take(k as int) =~= tv@.map_values(|x: u32| x as nat).take(k - 1).push(tv@[k - 1] as nat));
                assert(g@.map_values(|x: u32| x as nat) =~= before + tv@.map_values(|x: u32| x as nat).take(k as int));
            }
            assert(tv@.map_values(|x: u32| x as nat).take(k as int) =~= tv@.map_values(|x: u32| x as nat));
            g
        },
        None => {
            let ps = split_char(s, ':');
            match parse_tail(&ps) {
                Some(v) => {
                    if v.len() != 8 {
                        return None;
                    }
                    v
                },
                None => {
                    return None;
                },
            }
        },
    };
    let ghost gs = groups@.map_values(|x: u32| x as nat);
    assert(ipv6_groups(s@) == Some(gs));
    assert(gs.len() == 8);
    assert forall|i: int| 0 <= i < gs.len() implies #[trigger] gs[i] < 65536 by {
        assert(gs[i] == groups@[i] as nat);
    }
    let mut acc: u128 = 0;
    let mut k: usize = 0;
    proof {
        lemma_groups_value_bound(gs);
    }
    while k < groups.len()
        invariant
            k <= groups@.len() == 8,
            gs == groups@.map_values(|x: u32| x as nat),
            forall|i: int| 0 <= i < gs.len() ==> #[trigger] gs[i] < 65536,
            acc == groups_value(gs.take(k as int)),
        decreases groups.len() - k,
    {
        proof {
            lemma_groups_value_bound(gs.take(k as int));
            assert(pow65536(7) == 0x1_0000_0000_0000_0000_0000_0000_0000) by {
                reveal_with_fuel(pow65536, 8);
            }
            assert(pow65536(k as nat) <= pow65536(7)) by {
                reveal_with_fuel(pow65536, 8);
            }
            assert(gs.take(k + 1).drop_last() =~= gs.take(k as int));
            let a = acc as nat;
            let g = gs[k as int];
            assert(a * 65536 + g < 0x1_0000_0000_0000_0000_0000_0000_0000_0000) by (nonlinear_arith)
                requires
                    a < 0x1_0000_0000_0000_0000_0000_0000_0000,
                    g < 65536,
            ;
        }
        acc = acc * 65536 + groups[k] as u128;
        k += 1;
    }
    assert(gs.take(8) =~= gs);
    Some(acc)
}

/// An address literal: dotted-quad IPv4, else IPv6.
pub open spec fn literal_spec(s: Seq<char>) -> Option<HostAddr> {
    match ipv4_spec(s) {
        Some(a) => Some(HostAddr::V4(a)),
        None => match ipv6_spec(s) {
            Some(b) => Some(HostAddr::V6(b)),
            None => None,
        },
    }
}

/// Reads an address literal.
pub fn parse_literal(s: &Vec<char>) -> (r: Option<HostAddr>)
    ensures
        r == literal_spec(s@),
{
    match parse_ipv4(s) {
        Some(a) => Some(HostAddr::V4(a)),
        None => match parse_ipv6(s) {
            Some(b) => Some(HostAddr::V6(b)),
            None => None,
        },
    }
}

impl HostAddr {
    /// Reads an IPv4 or IPv6 address literal.
    pub fn parse(s: &str) -> (r: Result<HostAddr, ScanError>)
        ensures
            r == match literal_spec(s@) {
                Some(a) => Ok::<HostAddr, ScanError>(a),
                None => Err(ScanError::FormatError),
            },
    {
        match parse_literal(&chars_of(s)) {
            Some(a) => Ok(a),
            None => Err(ScanError::FormatError),
        }
    }
}

impl FromStr for HostAddr {
    type Err = ScanError;

    fn from_str(s: &str) -> Result<HostAddr, ScanError> {
        HostAddr::parse(s)
    }
}

/// The first 16-bit group of an IPv6 address.
pub open spec fn v6_head(x: u128) -> nat {
    x as nat / 0x1_0000_0000_0000_0000_0000_0000_0000
}

/// Private, loopback, unique-local or link-local space as the scanner
/// understands it: 10/8, 172.16/12, 192.168/16, 127/8; ::1, fc00::/7, fe80::/10.
pub open spec fn private_spec(a: HostAddr) -> bool {
    match a {
        HostAddr::V4(x) => {
            let o0 = x as nat / 16777216;
            let o1 = (x as nat / 65536) % 256;
            o0 == 10 || (o0 == 172 && 16 <= o1 <= 31) || (o0 == 192 && o1 == 168) || o0 == 127
        },
        HostAddr::V6(x) => x == 1 || (0xfc00 <= v6_head(x) <= 0xfdff) || (0xfe80 <= v6_head(x)
            <= 0xfebf),
    }
}

pub fn is_private_ip(ip: &HostAddr) -> (r: bool)
    ensures
        r == private_spec(*ip),
{
    match ip {
        HostAddr::V4(x) => {
            let o0 = *x / 16777216;
            let o1 = (*x / 65536) % 256;
            o0 == 10 || (o0 == 172 && 16 <= o1 && o1 <= 31) || (o0 == 192 && o1 == 168) || o0
                == 127
        },
        HostAddr::V6(x) => {
            let head = *x / 0x1_0000_0000_0000_0000_0000_0000_0000;
            *x == 1 || (0xfc00 <= head && head <= 0xfdff) || (0xfe80 <= head && head <= 0xfebf)
        },
    }
}

/// Within the reach of link-layer discovery: private or loopback space
/// as above, or IPv4 link-local 169.254/16.
pub open spec fn local_segment_spec(a: HostAddr) -> bool {
    private_spec(a) || match a {
        HostAddr::V4(x) => x as nat / 65536 == 169 * 256 + 254,
        HostAddr::V6(_) => false,
    }
}

pub fn is_local_segment(ip: &HostAddr) -> (r: bool)
    ensures
        r == local_segment_spec(*ip),
{
    if is_private_ip(ip) {
        return true;
    }
    match ip {
        HostAddr::V4(x) => *x / 65536 == 169 * 256 + 254,
        HostAddr::V6(_) => false,
    }
}

} // verus!
