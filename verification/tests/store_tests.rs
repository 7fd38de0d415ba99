use nerum_core::command::{CommandType, Protocol};
use nerum_core::model::{IpAddress, NodeInfo, NodeType, PortInfo};
use nerum_core::result::{PingResponse, PingResult, PortScanResult, ProbeStatus, TracerouteResult};
use nerum_core::store::{
    get_map_data, get_probe_id, get_probe_stat, get_top_probe_hist, host_scan_rows, ping_result_rows,
    placeholder_list, port_scan_rows, probe_target_filter, trace_result_rows, MapEdge, MapInfo,
    MapLayout, MapNode, ProbeLog,
};

fn log_line(id: u32, type_id: &str) -> ProbeLog {
    ProbeLog {
        id,
        probe_id: format!("probe-{}", id),
        probe_type_id: String::from(type_id),
        probe_type_name: String::from(type_id),
        probe_target_addr: String::from("10.0.0.1"),
        probe_target_name: String::from("example.com"),
        protocol_id: String::from("tcp"),
        probe_option: String::new(),
        issued_at: String::new(),
    }
}

#[test]
fn probe_id_is_a_stripped_token() {
    let id = get_probe_id();
    assert_eq!(id.len(), 32);
    assert!(id.chars().all(|c| c.is_ascii_hexdigit() && !c.is_ascii_uppercase()));
    assert!(!id.contains('-'));
    let other = get_probe_id();
    assert_ne!(id, other, "two fresh session identifiers should differ");
}

#[test]
fn probe_stat_counts_each_kind() {
    let logs = vec![
        log_line(1, "ping"),
        log_line(2, "port_scan"),
        log_line(3, "ping"),
        log_line(4, "traceroute"),
        log_line(5, "host_scan"),
        log_line(6, "ping"),
        log_line(7, "domain_scan"),
    ];
    let stat = get_probe_stat(&logs);
    assert_eq!(stat.ping_count, 3);
    assert_eq!(stat.portscan_count, 1);
    assert_eq!(stat.hostscan_count, 1);
    assert_eq!(stat.traceroute_count, 1);
}

#[test]
fn top_probe_hist_keeps_ten_newest() {
    let mut logs = Vec::new();
    for id in 1..=12u32 {
        logs.push(log_line(id, "ping"));
    }
    let top = get_top_probe_hist(logs);
    assert_eq!(top.len(), 10);
    let ids: Vec<u32> = top.iter().map(|l| l.id).collect();
    assert_eq!(ids, vec![12, 11, 10, 9, 8, 7, 6, 5, 4, 3]);
}

#[test]
fn top_probe_hist_short_history_comes_back_whole() {
    let logs = vec![log_line(2, "ping"), log_line(5, "ping"), log_line(3, "ping")];
    let top = get_top_probe_hist(logs);
    let ids: Vec<u32> = top.iter().map(|l| l.id).collect();
    assert_eq!(ids, vec![5, 3, 2]);
}

#[test]
fn map_data_assembles_one_map() {
    let infos = vec![
        MapInfo { map_id: 1, map_name: String::from("lab"), display_order: 1, created_at: String::new() },
        MapInfo { map_id: 2, map_name: String::from("office"), display_order: 2, created_at: String::new() },
    ];
    let nodes = vec![
        MapNode { map_id: 1, node_id: String::from("n1"), node_name: String::from("gw"), ip_addr: String::from("10.0.0.1"), host_name: String::new() },
        MapNode { map_id: 2, node_id: String::from("n2"), node_name: String::from("fw"), ip_addr: String::from("10.0.1.1"), host_name: String::new() },
    ];
    let edges = vec![
        MapEdge { map_id: 2, edge_id: String::from("e9"), source_node_id: String::from("n2"), target_node_id: String::from("n2"), edge_label: String::new() },
    ];
    let layouts = vec![
        MapLayout { map_id: 2, node_id: String::from("n2"), x_value: 4, y_value: -2 },
    ];
    let data = get_map_data(2, &infos, &nodes, &edges, &layouts);
    assert_eq!(data.map_info.map_name, "office");
    assert_eq!(data.nodes.len(), 1);
    assert_eq!(data.nodes[0].node_id, "n2");
    assert_eq!(data.edges.len(), 1);
    assert_eq!(data.layouts.len(), 1);
    assert_eq!(data.layouts[0].x_value, 4);

    let missing = get_map_data(9, &infos, &nodes, &edges, &layouts);
    assert_eq!(missing.map_info.map_id, 0);
    assert!(missing.nodes.is_empty());
    assert!(missing.edges.is_empty());
    assert!(missing.layouts.is_empty());
}

#[test]
fn placeholder_list_text() {
    assert_eq!(placeholder_list(5, 0), "");
    assert_eq!(placeholder_list(5, 1), "?5");
    assert_eq!(placeholder_list(5, 2), "?5, ?6");
    assert_eq!(placeholder_list(5, 4), "?5, ?6, ?7, ?8");
}

#[test]
fn target_filter_falls_back_to_wildcard() {
    assert_eq!(probe_target_filter(&String::from("example.com")), "example.com");
    assert_eq!(probe_target_filter(&String::from("not a host")), "%");
    assert_eq!(probe_target_filter(&String::new()), "%");
}

#[test]
fn ping_rows_flatten_a_session() {
    let mut result = PingResult::new();
    result.probe_id = String::from("abc123");
    let mut first = PingResponse::new();
    first.seq = 0;
    first.ip_addr = IpAddress::V4(0x0a000001);
    first.host_name = String::from("example.com");
    first.port_number = Some(80);
    first.ttl = 64;
    first.hop = 3;
    first.rtt = 10_500;
    let mut second = PingResponse::new();
    second.seq = 1;
    second.ip_addr = IpAddress::V4(0x0a000001);
    second.status = ProbeStatus::Timeout;
    result.stat.responses = vec![first, second];
    result.stat.probe_time = 123_456;
    result.stat.transmitted_count = 2;
    result.stat.received_count = 1;
    result.stat.min = 10_500;
    result.stat.avg = 10_500;
    result.stat.max = 10_500;

    let (summary, rows) = ping_result_rows(&result, &String::from("count=2"));
    assert_eq!(summary.probe_id, "abc123");
    assert_eq!(summary.probe_type_id, "ping");
    assert_eq!(summary.probe_target_addr, "10.0.0.1");
    assert_eq!(summary.probe_target_name, "example.com");
    assert_eq!(summary.protocol_id, "icmp");
    assert_eq!(summary.probe_option, "count=2");
    assert_eq!(summary.probe_time, 123);
    assert_eq!(summary.min_value, 10);
    assert_eq!(summary.avg_value, 10);
    assert_eq!(summary.max_value, 10);
    assert_eq!(rows.len(), 2);
    assert_eq!(rows[0].port_no, 80);
    assert_eq!(rows[0].status, "Done");
    assert_eq!(rows[0].rtt, 10);
    assert_eq!(rows[1].port_no, 0);
    assert_eq!(rows[1].status, "Timeout");
}

#[test]
fn port_scan_rows_flatten_a_session() {
    let mut result = PortScanResult::new();
    result.probe_id = String::from("scan01");
    result.elapsed_time = 777;
    let node = NodeInfo {
        ip_addr: IpAddress::V4(0xc0a80102),
        host_name: String::from("host.local"),
        mac_addr: String::from("00:11:22:33:44:55"),
        vendor_info: String::from("acme"),
        os_name: String::from("linux"),
        cpe: String::from("cpe:/o:linux"),
        ports: vec![
            PortInfo { port_number: 80, port_status: String::from("open"), service_name: String::from("http"), service_version: String::new() },
            PortInfo { port_number: 443, port_status: String::from("open"), service_name: String::from("https"), service_version: String::new() },
        ],
    };
    result.nodes = vec![node];

    let (summary, host_row, port_rows) = port_scan_rows(&result, &String::from("ports=80,443"));
    assert_eq!(summary.probe_type_id, "port_scan");
    assert_eq!(summary.probe_target_addr, "192.168.1.2");
    assert_eq!(summary.probe_time, 777);
    assert_eq!(host_row.port, 80);
    assert_eq!(host_row.vendor, "acme");
    assert_eq!(host_row.cpe, "cpe:/o:linux");
    assert_eq!(port_rows.len(), 2);
    assert_eq!(port_rows[0].socket_addr, "192.168.1.2:80");
    assert_eq!(port_rows[1].socket_addr, "192.168.1.2:443");
    assert_eq!(port_rows[1].service_id, "https");
    assert_eq!(port_rows[0].protocol_id, "tcp");
}

#[test]
fn host_scan_rows_flatten_a_session() {
    let mut result = nerum_core::result::HostScanResult::new();
    result.probe_id = String::from("host01");
    result.elapsed_time = 40;
    result.nodes = vec![
        NodeInfo {
            ip_addr: IpAddress::V4(0x0a000002),
            host_name: String::from("a.local"),
            mac_addr: String::new(),
            vendor_info: String::new(),
            os_name: String::from("linux"),
            cpe: String::new(),
            ports: vec![],
        },
        NodeInfo {
            ip_addr: IpAddress::V4(0x0a000003),
            host_name: String::from("b.local"),
            mac_addr: String::new(),
            vendor_info: String::new(),
            os_name: String::new(),
            cpe: String::new(),
            ports: vec![PortInfo { port_number: 22, port_status: String::from("open"), service_name: String::from("ssh"), service_version: String::new() }],
        },
    ];
    let (summary, rows) = host_scan_rows(&result, &String::new());
    assert_eq!(summary.probe_type_id, "host_scan");
    assert_eq!(summary.probe_target_addr, "");
    assert_eq!(summary.protocol_id, "icmp");
    assert_eq!(rows.len(), 2);
    assert_eq!(rows[0].port, 0);
    assert_eq!(rows[1].port, 22);
    assert_eq!(rows[1].ip_addr, "10.0.0.3");
}

#[test]
fn trace_rows_flatten_a_session() {
    let mut result = TracerouteResult::new();
    result.probe_id = String::from("trace01");
    result.elapsed_time = 900;
    let mut hop1 = PingResponse::new();
    hop1.seq = 1;
    hop1.ip_addr = IpAddress::V4(0x0a000001);
    hop1.ttl = 1;
    hop1.hop = 1;
    hop1.rtt = 1500;
    hop1.node_type = NodeType::Intermediate;
    let mut hop2 = PingResponse::new();
    hop2.seq = 2;
    hop2.ip_addr = IpAddress::V4(0x08080808);
    hop2.ttl = 2;
    hop2.hop = 2;
    hop2.rtt = 9000;
    hop2.node_type = NodeType::Destination;
    result.nodes = vec![hop1, hop2];

    let (summary, rows) = trace_result_rows(&result, &String::new());
    assert_eq!(summary.probe_type_id, "traceroute");
    assert_eq!(summary.probe_target_addr, "10.0.0.1");
    assert_eq!(summary.protocol_id, "udp");
    assert_eq!(summary.probe_time, 900);
    assert_eq!(rows.len(), 2);
    assert_eq!(rows[0].node_type, "Intermediate");
    assert_eq!(rows[1].node_type, "Destination");
    assert_eq!(rows[1].ip_addr, "8.8.8.8");
    assert_eq!(rows[1].rtt, 9000);
}

#[test]
fn command_and_protocol_identifiers() {
    assert_eq!(CommandType::PortScan.id(), "port_scan");
    assert_eq!(CommandType::HostScan.id(), "host_scan");
    assert_eq!(CommandType::Ping.id(), "ping");
    assert_eq!(CommandType::Traceroute.id(), "traceroute");
    assert_eq!(CommandType::DomainScan.id(), "domain_scan");
    assert_eq!(Protocol::Tcp.id(), "tcp");
    assert_eq!(Protocol::Udp.id(), "udp");
    assert_eq!(Protocol::Icmp.id(), "icmp");
    assert_eq!(Protocol::Icmpv6.id(), "icmpv6");
    assert_eq!(Protocol::Arp.id(), "arp");
}
