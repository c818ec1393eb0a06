use hakinet::error::ScanError;
use hakinet::network::{HostAddr, HostTarget, PortRange};
use hakinet::scanner::{
    host_result, merge_phases, tcp_port_result, udp_port_result, with_identified_service,
    ConcurrencyGate, HostSweep, PortScanner, ProbeKind, ScanTechnique, SweepAction, TcpOutcome,
    UdpOutcome,
};
use hakinet::service::ServiceDetector;
use hakinet::types::{HostInfo, PortInfo, PortState, ScanResults};

#[test]
fn tcp_timeout_is_filtered_never_open() {
    let r = tcp_port_result(9, TcpOutcome::TimedOut, 500_000);
    assert_eq!(r.state, PortState::Filtered);
    assert_eq!(r.response_time, None);
    assert_eq!(tcp_port_result(9, TcpOutcome::Failed, 5).state, PortState::Filtered);
    let open = tcp_port_result(80, TcpOutcome::Connected, 1200);
    assert_eq!((open.state, open.response_time), (PortState::Open, Some(1200)));
    let closed = tcp_port_result(81, TcpOutcome::Refused, 40);
    assert_eq!((closed.state, closed.response_time), (PortState::Closed, Some(40)));
    assert_eq!(closed.protocol, "tcp");
}

#[test]
fn udp_outcomes() {
    assert_eq!(udp_port_result(53, UdpOutcome::Reply, 7).response_time, Some(7));
    assert_eq!(udp_port_result(53, UdpOutcome::Reply, 7).state, PortState::Open);
    assert_eq!(udp_port_result(53, UdpOutcome::NoReply, 7).state, PortState::OpenFiltered);
    assert_eq!(udp_port_result(53, UdpOutcome::PeerFailed, 7).state, PortState::Filtered);
    assert_eq!(udp_port_result(53, UdpOutcome::BindFailed, 7).state, PortState::Unknown);
    assert_eq!(udp_port_result(53, UdpOutcome::NoReply, 7).response_time, None);
    assert!(PortState::OpenFiltered.is_open());
    assert!(!PortState::ClosedFiltered.is_open());
    assert_eq!(PortState::OpenFiltered.as_str(), "open|filtered");
}

#[test]
fn sweep_never_exceeds_max_parallel() {
    let ports: Vec<u16> = (1..=40).collect();
    let mut sweep = HostSweep::new(ports, ProbeKind::ConnectProbe, 3).unwrap();
    let mut in_flight: Vec<u16> = Vec::new();
    let mut high_water = 0;
    let mut last_progress = 0;
    let mut step = 0;
    loop {
        match sweep.next_action() {
            SweepAction::Launch(p) => {
                assert_eq!(sweep.launch(), p);
                in_flight.push(p);
                high_water = high_water.max(in_flight.len());
            }
            SweepAction::AwaitOne => {
                let idx = step % in_flight.len();
                let p = in_flight.remove(idx);
                sweep.settle(tcp_port_result(p, TcpOutcome::Refused, 1));
                let (done, total) = sweep.progress();
                assert!(done > last_progress);
                assert_eq!(total, 40);
                last_progress = done;
            }
            SweepAction::Finished => break,
        }
        step += 1;
    }
    assert_eq!(high_water, 3);
    assert!(in_flight.is_empty());
    let results = sweep.finish();
    assert_eq!(results.len(), 40);
    let mut seen: Vec<u16> = results.iter().map(|r| r.port).collect();
    seen.sort();
    assert_eq!(seen, (1..=40).collect::<Vec<u16>>());
    assert!(results.iter().all(|r| r.protocol == "tcp"));
    assert!(matches!(HostSweep::new(vec![1], ProbeKind::ConnectProbe, 0), Err(ScanError::ConfigError)));
}

#[test]
fn gate_counts_permits() {
    let mut g = ConcurrencyGate::new(2).unwrap();
    assert!(g.try_acquire());
    assert!(g.try_acquire());
    assert!(!g.try_acquire());
    assert_eq!(g.in_flight(), 2);
    g.release();
    assert_eq!(g.available(), 1);
    assert_eq!(ConcurrencyGate::new(0).err().map(|_| ()), Some(()));
    assert!(matches!(ConcurrencyGate::new(0), Err(ScanError::ConfigError)));
}

#[test]
fn phases_of_each_technique() {
    let s = PortScanner::new();
    let p = s.phases(ScanTechnique::Syn, "22,80").unwrap();
    assert_eq!(p.len(), 1);
    assert_eq!(p[0].kind, ProbeKind::ConnectProbe);
    let c = s.phases(ScanTechnique::Comprehensive, "1-10").unwrap();
    assert_eq!(c.len(), 2);
    assert_eq!(c[1].kind, ProbeKind::UdpProbe);
    assert_eq!(c[1].ranges.len(), 12);
    assert_eq!(c[1].ranges[11], PortRange::single(4500));
    assert!(matches!(s.phases(ScanTechnique::Udp, "9-1"), Err(ScanError::FormatError)));
    let udp = s.sweep(vec![1, 2], ProbeKind::UdpProbe).unwrap();
    assert_eq!(udp.progress(), (0, 2));
    let zero = PortScanner::new().with_max_parallel(0);
    assert!(matches!(zero.sweep(vec![1], ProbeKind::ConnectProbe), Err(ScanError::ConfigError)));
}

#[test]
fn port_order_and_shuffle_keep_ports() {
    let ranges = vec![PortRange::new(1, 3).unwrap(), PortRange::single(2)];
    let s = PortScanner::new();
    assert_eq!(s.port_order(&ranges), vec![1, 2, 3, 2]);
    let r = PortScanner::new().with_randomize(true);
    let mut got = r.port_order(&ranges);
    got.sort();
    assert_eq!(got, vec![1, 2, 2, 3]);
}

#[test]
fn liveness_stops_at_first_answer() {
    let s = PortScanner::new();
    let mut check = s.liveness_check();
    assert_eq!(check.next_probe(), Some(80));
    check.record(TcpOutcome::TimedOut);
    assert_eq!(check.next_probe(), Some(443));
    check.record(TcpOutcome::Refused);
    assert!(check.is_alive());
    assert_eq!(check.next_probe(), None);
    assert_eq!(s.liveness_timeout().millis, 500);
}

fn host(last: u32, ports: Vec<PortInfo>, up: bool) -> HostInfo {
    let t = HostTarget::new(HostAddr::V4(0x0a000000 + last));
    host_result(t, up, ports, 1_700_000_000)
}

#[test]
fn dead_host_keeps_no_ports() {
    let h = host(1, vec![tcp_port_result(80, TcpOutcome::Connected, 1)], false);
    assert!(!h.is_up);
    assert!(h.ports.is_empty());
}

#[test]
fn session_counters_follow_hosts() {
    let mut s = ScanResults::new(100);
    s.add_host(host(1, vec![
        tcp_port_result(22, TcpOutcome::Connected, 1),
        tcp_port_result(23, TcpOutcome::Refused, 1),
        udp_port_result(53, UdpOutcome::NoReply, 1),
    ], true));
    s.add_host(host(2, vec![], false));
    s.add_host(host(3, vec![tcp_port_result(25, TcpOutcome::TimedOut, 1)], true));
    assert_eq!(s.total_hosts, 3);
    assert_eq!(s.hosts_up, 2);
    assert_eq!(s.total_ports_scanned, s.hosts.iter().map(|h| h.ports.len()).sum::<usize>());
    assert_eq!(s.total_ports_scanned, 4);
    assert_eq!(s.open_ports_found, 2);
    assert_eq!(s.hosts[0].open_ports().len(), 2);
    assert_eq!(s.start_time, 100);
    s.finalize(160);
    assert_eq!(s.end_time, 160);
    assert_eq!(s.duration(), 60);
    assert_eq!(s.hosts[0].scan_time, 1_700_000_000);
}

#[test]
fn comprehensive_merge_drops_nothing() {
    let mut tcp = ScanResults::new(5);
    tcp.add_host(host(1, vec![tcp_port_result(80, TcpOutcome::Connected, 1), tcp_port_result(81, TcpOutcome::Refused, 1)], true));
    tcp.add_host(host(2, vec![tcp_port_result(80, TcpOutcome::TimedOut, 1)], true));
    let mut udp = ScanResults::new(6);
    udp.add_host(host(2, vec![udp_port_result(53, UdpOutcome::Reply, 1)], true));
    udp.add_host(host(1, vec![udp_port_result(53, UdpOutcome::NoReply, 1), udp_port_result(123, UdpOutcome::NoReply, 1), udp_port_result(161, UdpOutcome::Reply, 1)], true));
    let m = merge_phases(tcp, udp);
    assert_eq!(m.start_time, 5);
    assert_eq!(m.hosts.len(), 2);
    assert_eq!(m.hosts[0].ports.len(), 2 + 3);
    assert_eq!(m.hosts[1].ports.len(), 1 + 1);
    assert_eq!(m.hosts[0].ports[2].protocol, "udp");
    assert_eq!(m.total_ports_scanned, 7);
    assert_eq!(m.open_ports_found, 1 + 3 + 1);
}

#[test]
fn identified_service_is_attached() {
    let info = tcp_port_result(22, TcpOutcome::Connected, 3);
    let s = ServiceDetector::new().identify(22, Some("SSH-2.0-OpenSSH_7.4"));
    let r = with_identified_service(info, s);
    assert_eq!(r.service.as_deref(), Some("ssh"));
    assert_eq!(r.version.as_deref(), Some("SSH-2.0-OpenSSH_7.4"));
}

#[test]
fn only_open_ports_are_identified() {
    let on = PortScanner::new().with_service_detection(true);
    let off = PortScanner::new();
    let open = tcp_port_result(22, TcpOutcome::Connected, 3);
    let closed = tcp_port_result(23, TcpOutcome::Refused, 3);
    assert!(on.wants_identification(&open));
    assert!(!on.wants_identification(&closed));
    assert!(!off.wants_identification(&open));
}

#[test]
fn udp_sweep_keeps_port_order_and_kind() {
    let scanner = PortScanner::new();
    let ranges = vec![PortRange::new(160, 162).unwrap(), PortRange::single(53), PortRange::single(161)];
    let ports = scanner.port_order(&ranges);
    let mut sweep = scanner.sweep(ports, ProbeKind::UdpProbe).unwrap();
    loop {
        match sweep.next_action() {
            SweepAction::Launch(_) => {
                let p = sweep.launch();
                assert!(matches!(sweep.next_action(), SweepAction::AwaitOne));
                let foreign = udp_port_result(p.wrapping_add(1), UdpOutcome::Reply, 1);
                assert!(!sweep.accepts(&foreign));
                let wrong_kind = tcp_port_result(p, TcpOutcome::Connected, 1);
                assert!(!sweep.accepts(&wrong_kind));
                let info = udp_port_result(p, UdpOutcome::NoReply, 1);
                assert!(sweep.accepts(&info));
                sweep.settle(info);
            }
            SweepAction::AwaitOne => panic!("one probe at a time settles at once here"),
            SweepAction::Finished => break,
        }
    }
    let results = sweep.finish();
    let order: Vec<u16> = results.iter().map(|r| r.port).collect();
    assert_eq!(order, vec![160, 161, 162, 53, 161]);
    assert!(results.iter().all(|r| r.protocol == "udp" && r.state == PortState::OpenFiltered));
}

#[test]
fn zero_parallelism_is_rejected_up_front() {
    assert!(matches!(PortScanner::new().with_max_parallel(0).check_config(), Err(ScanError::ConfigError)));
    assert!(PortScanner::new().check_config().is_ok());
}
