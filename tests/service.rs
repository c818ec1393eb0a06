use hakinet::service::{classify_banner, FingerprintStep, ServiceDetector, ServiceInfo};

#[test]
fn test_http_version_extraction() {
    let detector = ServiceDetector::new();
    let banner = "HTTP/1.1 200 OK\r\nServer: Apache/2.4.41";
    assert_eq!(detector.extract_http_version(banner), Some("HTTP/1.1".to_string()));
}

#[test]
fn test_ssh_version_extraction() {
    let detector = ServiceDetector::new();
    let banner = "SSH-2.0-OpenSSH_7.4\r\n";
    assert_eq!(detector.extract_ssh_version(banner), Some("SSH-2.0-OpenSSH_7.4".to_string()));
}

#[test]
fn test_service_analysis() {
    let detector = ServiceDetector::new();

    let http_banner = "HTTP/1.1 200 OK\r\nServer: nginx/1.18.0";
    let service = detector.analyze_banner(http_banner, 80).unwrap();
    assert_eq!(service.name, "nginx");

    let ssh_banner = "SSH-2.0-OpenSSH_7.4";
    let service = detector.analyze_banner(ssh_banner, 22).unwrap();
    assert_eq!(service.name, "ssh");
}

#[test]
fn ssh_banner_on_port_22() {
    let detector = ServiceDetector::new();
    let s = detector.analyze_banner("SSH-2.0-OpenSSH_7.4", 22).unwrap();
    assert_eq!(s.name, "ssh");
    assert_eq!(s.version.as_deref(), Some("SSH-2.0-OpenSSH_7.4"));
    assert_eq!(s.confidence, 95);
    let k = detector.identify(22, Some("SSH-2.0-OpenSSH_7.4")).unwrap();
    assert_eq!(k.name, "ssh");
    assert_eq!(k.confidence, 95);
    assert_eq!(k.version.as_deref(), Some("SSH-2.0-OpenSSH_7.4"));
    let lower = detector.analyze_banner("ssh-2.0-x\r\nmore", 2222).unwrap();
    assert_eq!(lower.version.as_deref(), Some("ssh-2.0-x"));
}

#[test]
fn nginx_banner_on_port_8080() {
    let detector = ServiceDetector::new();
    let s = detector.analyze_banner("HTTP/1.1 200 OK\r\nServer: nginx/1.18.0", 8080).unwrap();
    assert_eq!(s.name, "nginx");
    assert_eq!(s.version.as_deref(), Some("nginx/1.18.0"));
    assert_eq!(s.banner.as_deref(), Some("HTTP/1.1 200 OK\r\nServer: nginx/1.18.0"));
    match detector.after_banner(8080, Some("HTTP/1.1 200 OK\r\nServer: nginx/1.18.0")) {
        FingerprintStep::Done(Some(k)) => {
            assert_eq!(k.name, "nginx");
            assert_eq!(k.version.as_deref(), Some("nginx/1.18.0"));
            assert_eq!(k.confidence, 95);
        }
        _ => panic!("a banner is identified"),
    }
}

#[test]
fn classification_rules_in_order() {
    let d = ServiceDetector::new();
    let ftp = d.analyze_banner("220 ProFTPD 1.3.5 Server ready", 2121).unwrap();
    assert_eq!(ftp.name, "ftp");
    assert_eq!(ftp.version.as_deref(), Some("ProFTPD 1.3.5 Server ready"));
    assert_eq!(d.analyze_banner("Welcome to telnet", 9000).unwrap().name, "telnet");
    assert_eq!(d.analyze_banner("xyz", 23).unwrap().name, "telnet");
    let my = d.analyze_banner("5.7.32-log mysql native", 4000).unwrap();
    assert_eq!(my.name, "mysql");
    assert_eq!(my.version.as_deref(), Some("5.7.32-log"));
    assert_eq!(d.analyze_banner("abcdefghijkl", 3306).unwrap().name, "mysql");
    assert_eq!(d.analyze_banner("abc", 3306).unwrap().name, "unknown");
    assert_eq!(d.analyze_banner("hello", 5432).unwrap().name, "postgresql");
    let u = d.analyze_banner("hello", 9999).unwrap();
    assert_eq!((u.name.as_str(), u.confidence), ("unknown", 30));
    assert!(d.analyze_banner("", 9999).is_none());
    let apache = d.analyze_banner("HTTP/1.0 200 OK Server: Apache/2.4.41 (Unix)", 81).unwrap();
    assert_eq!(apache.name, "apache");
    assert_eq!(apache.version.as_deref(), Some("Apache/2.4.41"));
    let plain = d.analyze_banner("http/1.0 200 ok", 81).unwrap();
    assert_eq!((plain.name.as_str(), plain.confidence), ("http", 85));
    assert_eq!(plain.version, None);
}

#[test]
fn lower_case_form_is_used_for_matching() {
    let s = classify_banner("SSH-1.99", "ssh-1.99", 2222).unwrap();
    assert_eq!(s.name, "ssh");
    assert!(classify_banner("SSH-1.99", "SSH-1.99", 2222).unwrap().name != "ssh");
}

#[test]
fn known_ports_and_probes() {
    let d = ServiceDetector::new();
    match d.after_banner(80, None) {
        FingerprintStep::SendProbe(p) => assert!(p.starts_with("GET / HTTP/1.1")),
        _ => panic!("port 80 has a probe payload"),
    }
    match d.after_banner(3389, None) {
        FingerprintStep::Done(Some(s)) => {
            assert_eq!((s.name.as_str(), s.confidence, s.version), ("rdp", 90, None));
        }
        _ => panic!("port 3389 is well known"),
    }
    match d.after_banner(9999, None) {
        FingerprintStep::Done(None) => {}
        _ => panic!("no probe for 9999"),
    }
    let tentative = d.identify(22, Some("hello there")).unwrap();
    assert_eq!((tentative.name.as_str(), tentative.confidence), ("ssh", 90));
    assert_eq!(d.after_probe(80, None).unwrap().name, "http");
    assert_eq!(d.probe_for(25).as_deref(), Some("EHLO localhost\r\n"));
    assert_eq!(d.probe_for(143).as_deref(), Some("A001 CAPABILITY\r\n"));
    assert!(d.probe_for(22).is_none());
    assert!(ServiceDetector::silent_banner_payload(443).is_some());
    assert!(ServiceDetector::silent_banner_payload(22).is_none());
    let r = d.after_probe(4444, Some("220 mail ESMTP")).unwrap();
    assert_eq!(r.name, "ftp");
    assert!(d.after_probe(4444, None).is_none());
    assert!(d.analyze_banner("", 9999).is_none());
}

#[test]
fn version_rules_and_display() {
    let d = ServiceDetector::new();
    assert_eq!(d.extract_smtp_version("220 mail.example.com ESMTP").as_deref(), Some("mail.example.com ESMTP"));
    assert_eq!(d.extract_ftp_version("220 ready"), None);
    assert_eq!(d.extract_iis_version("Server: Microsoft-IIS/10.0").as_deref(), Some("IIS/10.0"));
    let s = ServiceInfo {
        name: "smtp".to_string(),
        version: Some("mail ESMTP Postfix".to_string()),
        banner: None,
        confidence: 95,
    };
    assert_eq!(s.display_string(), "smtp mail ESMTP Postfix");
    assert_eq!(d.identify(3389, None).unwrap().display_string(), "rdp");
}

#[test]
fn banner_bytes_become_trimmed_text() {
    assert_eq!(hakinet::service::banner_text(b"  SSH-2.0-x\r\n"), "SSH-2.0-x");
    assert_eq!(hakinet::service::banner_text(&[0x41, 0xff, 0x42]), "A\u{FFFD}B");
    assert_eq!(ServiceDetector::new().read_window().millis, 2000);
}
