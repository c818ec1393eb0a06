use hakinet::filter::PacketFilter;
use hakinet::types::PacketInfo;

#[test]
fn test_filter_validation() {
    assert!(PacketFilter::is_valid_bpf_filter("tcp port 80").is_ok());
    assert!(PacketFilter::is_valid_bpf_filter("udp and port 53").is_ok());
    assert!(PacketFilter::is_valid_bpf_filter("host 192.168.1.1").is_ok());
    assert!(PacketFilter::is_valid_bpf_filter("").is_err());
}

#[test]
fn blank_filter_and_matching() {
    assert!(PacketFilter::is_valid_bpf_filter(" \t\n").is_err());
    let f = PacketFilter::new(Some("tcp".to_string()));
    assert!(f.matches(&PacketInfo::new()));
    assert_eq!(PacketInfo::default().protocol, "Unknown");
}
