use hakinet::discovery::{DiscoveryAction, DiscoveryMethod, DiscoverySweep, HostDiscoverer};
use hakinet::error::ScanError;
use hakinet::network::{HostAddr, HostTarget};
use hakinet::scanner::TcpOutcome;

#[test]
fn arp_leaves_out_remote_addresses() {
    let d = HostDiscoverer::new();
    let targets = vec![
        HostTarget::new(HostAddr::V4(0xc0a80101)),
        HostTarget::new(HostAddr::V4(0x08080808)),
        HostTarget::new(HostAddr::V4(0xa9fe0001)),
    ];
    let (kept, skipped) = d.select_targets(DiscoveryMethod::Arp, targets);
    assert_eq!(kept.len(), 2);
    assert_eq!(skipped.len(), 1);
    assert_eq!(skipped[0].addr, HostAddr::V4(0x08080808));
    let again = vec![HostTarget::new(HostAddr::V4(0x08080808))];
    assert_eq!(d.select_targets(DiscoveryMethod::Ping, again).0.len(), 1);
}

#[test]
fn discovery_ports_and_records() {
    let d = HostDiscoverer::new().with_max_parallel(7);
    assert!(d.gate().is_ok());
    assert!(HostDiscoverer::new().with_max_parallel(0).gate().is_err());
    let mut check = d.liveness(DiscoveryMethod::TcpSyn);
    let mut tried = 0;
    while let Some(_) = check.next_probe() {
        check.record(TcpOutcome::TimedOut);
        tried += 1;
    }
    assert_eq!(tried, 10);
    assert!(!check.is_alive());
    let up = HostDiscoverer::discovered_host(HostTarget::new(HostAddr::V4(1)), true, 250, 42);
    assert_eq!(up.scan_time, 42);
    assert_eq!(up.response_time, Some(250));
    let down = HostDiscoverer::discovered_host(HostTarget::new(HostAddr::V4(1)), false, 250, 42);
    assert_eq!(down.response_time, None);
    assert!(!down.is_up);
}

#[test]
fn discovery_sweep_bounds_and_orders_records() {
    let mut sweep = HostDiscoverer::new().with_max_parallel(2).sweep(5).unwrap();
    let mut in_flight: Vec<usize> = Vec::new();
    let mut high_water = 0;
    loop {
        match sweep.next_action() {
            DiscoveryAction::Launch(i) => {
                assert_eq!(sweep.launch(), i);
                in_flight.push(i);
                high_water = high_water.max(in_flight.len());
            }
            DiscoveryAction::AwaitOne => {
                let i = in_flight.pop().unwrap();
                let host = HostDiscoverer::discovered_host(
                    HostTarget::new(HostAddr::V4(i as u32)),
                    i % 2 == 0,
                    7,
                    9,
                );
                sweep.settle(i, host);
            }
            DiscoveryAction::Finished => break,
        }
    }
    assert_eq!(high_water, 2);
    let hosts = sweep.finish();
    let addrs: Vec<HostAddr> = hosts.iter().map(|h| h.addr).collect();
    assert_eq!(addrs, (0..5).map(HostAddr::V4).collect::<Vec<_>>());
    assert_eq!(hosts.iter().filter(|h| h.is_up).count(), 3);
    assert!(matches!(DiscoverySweep::new(3, 0), Err(ScanError::ConfigError)));
    assert!(matches!(HostDiscoverer::new().with_max_parallel(0).check_config(), Err(ScanError::ConfigError)));
}
