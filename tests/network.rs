use hakinet::error::ScanError;
use hakinet::network::{
    get_common_ports, get_service_name, is_local_segment, is_private_ip, parse_port_list,
    parse_targets, targets_for_lookup, HostAddr, PortRange, Protocol, TargetPlan,
};
use std::str::FromStr;

#[test]
fn test_port_range() {
    let range = PortRange::new(80, 443).unwrap();
    assert_eq!(range.count(), 364);
    assert!(range.contains(80));
    assert!(range.contains(443));
    assert!(!range.contains(79));
    assert!(!range.contains(444));
}

#[test]
fn test_port_range_parsing() {
    assert_eq!(PortRange::from_str("80").unwrap().count(), 1);
    assert_eq!(PortRange::from_str("80-443").unwrap().count(), 364);
    assert!(PortRange::from_str("443-80").is_err());
}

#[test]
fn test_protocol_parsing() {
    assert_eq!(Protocol::from_str("tcp").unwrap(), Protocol::Tcp);
    assert_eq!(Protocol::from_str("TCP").unwrap(), Protocol::Tcp);
    assert!(Protocol::from_str("invalid").is_err());
}

#[test]
fn test_private_ip() {
    assert!(is_private_ip(&"192.168.1.1".parse().unwrap()));
    assert!(is_private_ip(&"10.0.0.1".parse().unwrap()));
    assert!(is_private_ip(&"172.16.0.1".parse().unwrap()));
    assert!(!is_private_ip(&"8.8.8.8".parse().unwrap()));
}

#[test]
fn port_spec_counts_and_order_error() {
    let one = parse_port_list("80").unwrap();
    assert_eq!(one.len(), 1);
    assert_eq!(one[0].count(), 1);
    let span = parse_port_list("80-443").unwrap();
    assert_eq!(span[0].count(), 364);
    assert_eq!(span[0].iter().len(), 364);
    assert_eq!(parse_port_list("443-80").unwrap_err(), ScanError::FormatError);
}

#[test]
fn port_list_keeps_overlaps_and_trims() {
    let v = parse_port_list("22, 80-81 ,80").unwrap();
    assert_eq!(v, vec![PortRange::single(22), PortRange { start: 80, end: 81 }, PortRange::single(80)]);
    assert!(parse_port_list("80,").is_err());
    assert!(parse_port_list("65536").is_err());
    assert!(parse_port_list("1-2-3").is_err());
    assert_eq!(parse_port_list("+8").unwrap()[0], PortRange::single(8));
}

#[test]
fn port_range_iter_and_presets() {
    assert_eq!(PortRange::new(5, 7).unwrap().iter(), vec![5, 6, 7]);
    assert_eq!(PortRange::all().count(), 65535);
    assert_eq!(PortRange::common().count(), 1024);
    assert_eq!(PortRange::single(65535).iter(), vec![65535]);
}

fn v4(a: u32, b: u32, c: u32, d: u32) -> HostAddr {
    HostAddr::V4(a * 16777216 + b * 65536 + c * 256 + d)
}

fn hosts(plan: TargetPlan) -> Vec<HostAddr> {
    match plan {
        TargetPlan::Hosts(v) => v.into_iter().map(|t| t.addr).collect(),
        TargetPlan::Lookup(n) => panic!("unexpected lookup of {}", n),
    }
}

#[test]
fn cidr_excludes_network_and_broadcast() {
    let got = hosts(parse_targets("192.168.1.0/30").unwrap());
    assert_eq!(got, vec![v4(192, 168, 1, 1), v4(192, 168, 1, 2)]);
    assert_eq!(hosts(parse_targets("192.168.1.77/24").unwrap()).len(), 254);
    assert!(hosts(parse_targets("10.0.0.5/32").unwrap()).is_empty());
    assert!(hosts(parse_targets("10.0.0.5/31").unwrap()).is_empty());
    assert_eq!(parse_targets("10.0.0.0/33").err(), Some(ScanError::FormatError));
    assert_eq!(parse_targets("10.0.0/8").err(), Some(ScanError::FormatError));
}

#[test]
fn ip_range_is_inclusive_and_ascending() {
    let got = hosts(parse_targets("10.0.0.1-10.0.0.3").unwrap());
    assert_eq!(got, vec![v4(10, 0, 0, 1), v4(10, 0, 0, 2), v4(10, 0, 0, 3)]);
    assert_eq!(parse_targets("10.0.0.3-10.0.0.1").err(), Some(ScanError::FormatError));
}

#[test]
fn literal_and_hostname_targets() {
    assert_eq!(hosts(parse_targets("127.0.0.1").unwrap()), vec![v4(127, 0, 0, 1)]);
    match parse_targets("example.org").unwrap() {
        TargetPlan::Lookup(n) => assert_eq!(n, "example.org"),
        TargetPlan::Hosts(_) => panic!("expected a lookup"),
    }
    assert_eq!(hosts(parse_targets("::1").unwrap()), vec![HostAddr::V6(1)]);
    let link_local = (0xfe80u128 << 112) | (1u128 << 16) | 2;
    assert_eq!(HostAddr::from_str("fe80::1:2").unwrap(), HostAddr::V6(link_local));
    let mapped = (0xffffu128 << 32) | 0x0a00_0001;
    assert_eq!(HostAddr::from_str("::ffff:10.0.0.1").unwrap(), HostAddr::V6(mapped));
    let full = HostAddr::from_str("1:2:3:4:5:6:7:8").unwrap();
    assert_eq!(full, HostAddr::V6(0x0001_0002_0003_0004_0005_0006_0007_0008));
    assert!(HostAddr::from_str("01.2.3.4").is_err());
    assert!(HostAddr::from_str("256.1.1.1").is_err());
}

#[test]
fn lookup_tags_hostname_or_fails() {
    let addrs = vec![v4(1, 2, 3, 4), HostAddr::V6(1)];
    let v = targets_for_lookup("host.example", Some(&addrs)).unwrap();
    assert_eq!(v.len(), 2);
    assert_eq!(v[1].addr, HostAddr::V6(1));
    assert_eq!(v[0].hostname.as_deref(), Some("host.example"));
    assert_eq!(targets_for_lookup("nowhere", None).err(), Some(ScanError::ResolutionError));
}

#[test]
fn service_table_and_common_ports() {
    assert_eq!(get_service_name(22, Protocol::Tcp), Some("ssh"));
    assert_eq!(get_service_name(53, Protocol::Udp), Some("dns"));
    assert_eq!(get_service_name(22, Protocol::Udp), None);
    assert_eq!(get_service_name(8080, Protocol::Tcp), Some("http-alt"));
    assert_eq!(get_common_ports().len(), 20);
    assert_eq!(Protocol::Udp.as_str(), "UDP");
    assert_eq!(Protocol::Icmp.to_protocol_number(), 1);
}

#[test]
fn local_segment_space() {
    assert!(is_local_segment(&v4(169, 254, 3, 4)));
    assert!(!is_private_ip(&v4(169, 254, 3, 4)));
    assert!(is_private_ip(&HostAddr::V6(1)));
    assert!(is_private_ip(&HostAddr::V6(0xfe80u128 << 112)));
    assert!(!is_local_segment(&v4(8, 8, 4, 4)));
}
