use nerum_core::aggregate::{
    compute_ping_stat, group_open_ports, order_hops, overall_status, truncate_at_destination,
};
use nerum_core::model::{IpAddress, NodeType};
use nerum_core::result::{PingResponse, ProbeStatus};

fn response(seq: u8, rtt: u64, status: ProbeStatus) -> PingResponse {
    let mut r = PingResponse::new();
    r.seq = seq;
    r.rtt = rtt;
    r.status = status;
    r
}

#[test]
fn ping_stat_scenario_two_ok_two_timeout() {
    // four probes against one target: RTTs 10 ms and 30 ms succeed, two time out
    let responses = vec![
        response(0, 10_000, ProbeStatus::Done),
        response(1, 30_000, ProbeStatus::Done),
        response(2, 0, ProbeStatus::Timeout),
        response(3, 0, ProbeStatus::Timeout),
    ];
    let overall = overall_status(&responses);
    let stat = compute_ping_stat(responses, 1_000_000);
    assert_eq!(stat.transmitted_count, 4);
    assert_eq!(stat.received_count, 2);
    assert_eq!(stat.min, 10_000);
    assert_eq!(stat.max, 30_000);
    assert_eq!(stat.avg, 20_000);
    assert_eq!(overall, ProbeStatus::Done);
}

#[test]
fn ping_stat_counts_received_at_most_transmitted() {
    let responses = vec![
        response(0, 5_000, ProbeStatus::Done),
        response(1, 0, ProbeStatus::Error),
        response(2, 7_000, ProbeStatus::Done),
    ];
    let stat = compute_ping_stat(responses, 0);
    assert_eq!(stat.transmitted_count, 3);
    assert_eq!(stat.received_count, 2);
    assert!(stat.received_count <= stat.transmitted_count);
}

#[test]
fn ping_stat_nothing_received_is_all_zero() {
    let responses = vec![
        response(0, 123, ProbeStatus::Timeout),
        response(1, 456, ProbeStatus::Error),
    ];
    let stat = compute_ping_stat(responses, 9);
    assert_eq!(stat.received_count, 0);
    assert_eq!(stat.min, 0);
    assert_eq!(stat.avg, 0);
    assert_eq!(stat.max, 0);
}

#[test]
fn ping_stat_bounds_are_attained() {
    let responses = vec![
        response(0, 40, ProbeStatus::Done),
        response(1, 10, ProbeStatus::Done),
        response(2, 25, ProbeStatus::Done),
    ];
    let stat = compute_ping_stat(responses, 0);
    assert_eq!(stat.min, 10);
    assert_eq!(stat.max, 40);
    assert_eq!(stat.avg, 25);
    assert!(stat.min <= stat.avg && stat.avg <= stat.max);
    let rtts: Vec<u64> = stat
        .responses
        .iter()
        .filter(|r| matches!(r.status, ProbeStatus::Done))
        .map(|r| r.rtt)
        .collect();
    assert!(rtts.contains(&stat.min));
    assert!(rtts.contains(&stat.max));
}

#[test]
fn overall_status_prefers_done_then_error_then_timeout() {
    let done_mix = vec![
        response(0, 0, ProbeStatus::Timeout),
        response(1, 1, ProbeStatus::Done),
        response(2, 0, ProbeStatus::Error),
    ];
    assert_eq!(overall_status(&done_mix), ProbeStatus::Done);

    let error_mix = vec![
        response(0, 0, ProbeStatus::Timeout),
        response(1, 0, ProbeStatus::Error),
    ];
    assert_eq!(overall_status(&error_mix), ProbeStatus::Error);

    let all_timeout = vec![
        response(0, 0, ProbeStatus::Timeout),
        response(1, 0, ProbeStatus::Timeout),
    ];
    assert_eq!(overall_status(&all_timeout), ProbeStatus::Timeout);

    let nothing: Vec<PingResponse> = Vec::new();
    assert_eq!(overall_status(&nothing), ProbeStatus::Error);
}

#[test]
fn order_hops_recovers_path_order() {
    let a = response(3, 30, ProbeStatus::Done);
    let mut b = response(1, 10, ProbeStatus::Done);
    b.node_type = NodeType::Intermediate;
    let mut c = response(2, 20, ProbeStatus::Done);
    c.node_type = NodeType::Intermediate;
    let ordered = order_hops(vec![a, b, c]);
    let seqs: Vec<u8> = ordered.iter().map(|r| r.seq).collect();
    assert_eq!(seqs, vec![1, 2, 3]);
}

#[test]
fn truncate_at_destination_ends_session_early() {
    let mut h1 = response(1, 10, ProbeStatus::Done);
    h1.node_type = NodeType::Intermediate;
    let h2 = response(2, 20, ProbeStatus::Done);
    let mut h3 = response(3, 30, ProbeStatus::Done);
    h3.node_type = NodeType::Intermediate;
    let cut = truncate_at_destination(vec![h1, h2, h3]);
    assert_eq!(cut.len(), 2);
    assert_eq!(cut[1].seq, 2);
    assert!(matches!(cut[1].node_type, NodeType::Destination));
}

#[test]
fn truncate_without_destination_keeps_all() {
    let mut a = response(1, 10, ProbeStatus::Done);
    a.node_type = NodeType::Intermediate;
    let mut b = response(2, 20, ProbeStatus::Timeout);
    b.node_type = NodeType::Intermediate;
    let hops = vec![a, b];
    let mut expected_seqs = Vec::new();
    for h in &hops {
        expected_seqs.push(h.seq);
    }
    let kept = truncate_at_destination(hops);
    let seqs: Vec<u8> = kept.iter().map(|r| r.seq).collect();
    assert_eq!(seqs, expected_seqs);
}

#[test]
fn grouping_collects_ports_per_target() {
    let mut r1 = response(0, 10, ProbeStatus::Done);
    r1.ip_addr = IpAddress::V4(0x0a000001);
    r1.port_number = Some(80);
    let mut r2 = response(1, 10, ProbeStatus::Done);
    r2.ip_addr = IpAddress::V4(0x0a000002);
    r2.port_number = Some(22);
    let mut r3 = response(2, 10, ProbeStatus::Done);
    r3.ip_addr = IpAddress::V4(0x0a000001);
    r3.port_number = Some(443);
    let mut r4 = response(3, 0, ProbeStatus::Timeout);
    r4.ip_addr = IpAddress::V4(0x0a000001);
    r4.port_number = Some(8080);
    let nodes = group_open_ports(&vec![r1, r2, r3, r4]);
    assert_eq!(nodes.len(), 2);
    assert_eq!(nodes[0].ip_addr, IpAddress::V4(0x0a000001));
    let ports0: Vec<u16> = nodes[0].ports.iter().map(|p| p.port_number).collect();
    assert_eq!(ports0, vec![80, 443]);
    assert_eq!(nodes[1].ip_addr, IpAddress::V4(0x0a000002));
    assert_eq!(nodes[1].ports.len(), 1);
    assert_eq!(nodes[1].ports[0].port_number, 22);
    assert_eq!(nodes[1].ports[0].port_status, "open");
}
