use nerum_core::result::{PingResponse, ProbeStatus};
use nerum_core::schedule::{
    arrange_targets, expand_ipv4_network, finalize_outstanding, order_seed, select_ports, OrderRng,
};

#[test]
fn explicit_ports_win_over_defaults() {
    // explicit ports {80, 443}, no "full" flag: exactly those are probed
    let explicit = vec![80u16, 443u16];
    let defaults = vec![21u16, 22u16, 23u16];
    let r = select_ports(false, &explicit, None, &defaults);
    assert_eq!(r, vec![80, 443]);
}

#[test]
fn full_overrides_everything() {
    let explicit = vec![80u16];
    let defaults = vec![22u16];
    let r = select_ports(true, &explicit, Some((10, 20)), &defaults);
    assert_eq!(r.len(), 65535);
    assert_eq!(r[0], 1);
    assert_eq!(r[65534], 65535);
}

#[test]
fn range_applies_when_no_explicit_list() {
    let explicit: Vec<u16> = Vec::new();
    let defaults = vec![22u16];
    let r = select_ports(false, &explicit, Some((10, 14)), &defaults);
    assert_eq!(r, vec![10, 11, 12, 13, 14]);
    let empty = select_ports(false, &explicit, Some((14, 10)), &defaults);
    assert!(empty.is_empty());
}

#[test]
fn defaults_stand_in_when_nothing_is_chosen() {
    let explicit: Vec<u16> = Vec::new();
    let defaults = vec![21u16, 22u16, 80u16, 443u16];
    let r = select_ports(false, &explicit, None, &defaults);
    assert_eq!(r, defaults);
}

#[test]
fn no_random_keeps_input_order() {
    let targets = vec![3u16, 1u16, 2u16];
    let mut rng = OrderRng::new(42);
    let r = arrange_targets(targets.clone(), false, &mut rng);
    assert_eq!(r, targets);
}

#[test]
fn randomized_order_visits_every_target_exactly_once() {
    let targets: Vec<u16> = (1..=100).collect();
    let mut rng = OrderRng::new(order_seed("some-session-token"));
    let shuffled = arrange_targets(targets.clone(), true, &mut rng);
    assert_eq!(shuffled.len(), targets.len());
    let mut sorted = shuffled.clone();
    sorted.sort_unstable();
    assert_eq!(sorted, targets);
}

#[test]
fn different_seeds_usually_give_different_orders() {
    let targets: Vec<u16> = (1..=64).collect();
    let mut rng_a = OrderRng::new(1);
    let mut rng_b = OrderRng::new(999_999_937);
    let a = arrange_targets(targets.clone(), true, &mut rng_a);
    let b = arrange_targets(targets, true, &mut rng_b);
    assert_ne!(a, b);
}

#[test]
fn generator_draws_stay_below_bound() {
    let mut rng = OrderRng::new(7);
    for bound in 1..200u64 {
        let v = rng.next_below(bound);
        assert!(v < bound);
    }
}

#[test]
fn order_seed_is_deterministic_in_the_text() {
    assert_eq!(order_seed("abc"), order_seed("abc"));
    assert_ne!(order_seed("abc"), order_seed("abd"));
}

#[test]
fn network_expansion_lists_every_address() {
    let net = expand_ipv4_network(0xc0a80177, 24); // 192.168.1.119/24
    assert_eq!(net.len(), 256);
    assert_eq!(net[0], 0xc0a80100);
    assert_eq!(net[255], 0xc0a801ff);
    let host = expand_ipv4_network(0x0a000001, 32);
    assert_eq!(host, vec![0x0a000001]);
    let wide = expand_ipv4_network(0xffffffff, 16);
    assert_eq!(wide.len(), 65536);
    assert_eq!(wide[0], 0xffff0000);
    assert_eq!(wide[65535], 0xffffffff);
}

#[test]
fn outstanding_probes_are_closed_as_timeouts() {
    let mut a = PingResponse::new();
    a.seq = 0;
    a.rtt = 1000;
    let mut c = PingResponse::new();
    c.seq = 2;
    c.rtt = 3000;
    let planned = vec![0u8, 1u8, 2u8, 3u8];
    let closed = finalize_outstanding(vec![a, c], &planned);
    assert_eq!(closed.len(), 4);
    assert_eq!(closed[0].seq, 0);
    assert_eq!(closed[1].seq, 2);
    let mut seqs: Vec<u8> = closed.iter().map(|r| r.seq).collect();
    seqs.sort_unstable();
    assert_eq!(seqs, planned);
    assert_eq!(closed[2].status, ProbeStatus::Timeout);
    assert_eq!(closed[3].status, ProbeStatus::Timeout);
}
