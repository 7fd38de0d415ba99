use nerum_core::command::{CommandType, HostScanType, PortScanType, Protocol};
use nerum_core::model::{IpAddress, NodeType};
use nerum_core::result::{
    DomainScanResult, HostScanResult, PingResponse, PingResult, PingStat, PortScanResult,
    ProbeStatus, TracerouteResult,
};

#[test]
fn status_names() {
    assert_eq!(ProbeStatus::Done.name(), "Done");
    assert_eq!(ProbeStatus::Error.name(), "Error");
    assert_eq!(ProbeStatus::Timeout.name(), "Timeout");
}

#[test]
fn node_type_names() {
    assert_eq!(NodeType::Destination.name(), "Destination");
    assert_eq!(NodeType::Intermediate.name(), "Intermediate");
}

#[test]
fn fresh_ping_response_defaults() {
    let r = PingResponse::new();
    assert_eq!(r.seq, 0);
    assert_eq!(r.ip_addr, IpAddress::V4(0x7f000001));
    assert_eq!(r.host_name, "");
    assert_eq!(r.port_number, None);
    assert_eq!(r.ttl, 0);
    assert_eq!(r.hop, 0);
    assert_eq!(r.rtt, 0);
    assert_eq!(r.status, ProbeStatus::Done);
    assert_eq!(r.node_type, NodeType::Destination);
}

#[test]
fn fresh_ping_stat_defaults() {
    let s = PingStat::new();
    assert!(s.responses.is_empty());
    assert_eq!(s.transmitted_count, 0);
    assert_eq!(s.received_count, 0);
    assert_eq!((s.min, s.avg, s.max), (0, 0, 0));
}

#[test]
fn fresh_session_results_carry_their_kind() {
    let p = PortScanResult::new();
    assert_eq!(p.command_type, CommandType::PortScan);
    assert_eq!(p.scan_type, PortScanType::TcpSynScan);
    assert_eq!(p.protocol, Protocol::Tcp);
    assert_eq!(p.probe_status, ProbeStatus::Done);
    assert!(p.nodes.is_empty());

    let h = HostScanResult::new();
    assert_eq!(h.command_type, CommandType::HostScan);
    assert_eq!(h.scan_type, HostScanType::IcmpPingScan);
    assert_eq!(h.protocol, Protocol::Icmp);

    let g = PingResult::new();
    assert_eq!(g.command_type, CommandType::Ping);
    assert_eq!(g.protocol, Protocol::Icmp);
    assert_eq!(g.stat.transmitted_count, 0);

    let t = TracerouteResult::new();
    assert_eq!(t.command_type, CommandType::Traceroute);
    assert_eq!(t.protocol, Protocol::Udp);

    let d = DomainScanResult::new();
    assert_eq!(d.command_type, CommandType::DomainScan);
    assert_eq!(d.base_domain, "");
    assert!(d.domains.is_empty());
}
