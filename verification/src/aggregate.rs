//! Folding probe outcomes into session-level results: ping statistics,
//! overall session status, traceroute hop ordering, and the grouping of
//! per-port outcomes by target.

use vstd::prelude::*;

use vstd::arithmetic::div_mod::{lemma_div_is_ordered, lemma_div_multiples_vanish};
use vstd::multiset::Multiset;

use crate::model::{IpAddress, NodeInfo, PortInfo};
use crate::result::{PingResponse, PingStat, ProbeStatus};
use crate::seq_facts::lemma_insert_to_multiset;

verus! {

/// The round trip times of the successfully answered responses of a
/// session, in arrival order.
pub open spec fn done_rtts(s: Seq<PingResponse>) -> Seq<u64>
    decreases s.len(),
{
    if s.len() == 0 {
        Seq::<u64>::empty()
    } else if s.last().status is Done {
        done_rtts(s.drop_last()).push(s.last().rtt)
    } else {
        done_rtts(s.drop_last())
    }
}

/// Sum of a sequence of times.
pub open spec fn rtt_sum(s: Seq<u64>) -> int
    decreases s.len(),
{
    if s.len() == 0 {
        0
    } else {
        rtt_sum(s.drop_last()) + s.last()
    }
}

/// Least element of a non-empty sequence of times.
pub open spec fn rtt_min(s: Seq<u64>) -> u64
    recommends
        s.len() > 0,
    decreases s.len(),
{
    if s.len() <= 1 {
        s[0]
    } else {
        let m = rtt_min(s.drop_last());
        if s.last() < m {
            s.last()
        } else {
            m
        }
    }
}

/// Greatest element of a non-empty sequence of times.
pub open spec fn rtt_max(s: Seq<u64>) -> u64
    recommends
        s.len() > 0,
    decreases s.len(),
{
    if s.len() <= 1 {
        s[0]
    } else {
        let m = rtt_max(s.drop_last());
        if s.last() > m {
            s.last()
        } else {
            m
        }
    }
}

/// The least and greatest elements bound every element and are both
/// attained.
pub proof fn lemma_rtt_bounds(s: Seq<u64>)
    requires
        s.len() > 0,
    ensures
        s.contains(rtt_min(s)),
        s.contains(rtt_max(s)),
        forall|i: int| 0 <= i < s.len() ==> rtt_min(s) <= #[trigger] s[i] <= rtt_max(s),
    decreases s.len(),
{
    if s.len() == 1 {
        assert(s[0] == rtt_min(s));
    } else {
        let pre = s.drop_last();
        lemma_rtt_bounds(pre);
        assert(forall|i: int| 0 <= i < pre.len() ==> pre[i] == s[i]);
        if rtt_min(s) == s.last() {
            assert(s.contains(rtt_min(s)));
        } else {
            let j = choose|j: int| 0 <= j < pre.len() && pre[j] == rtt_min(pre);
            assert(s[j] == rtt_min(s));
        }
        if rtt_max(s) == s.last() {
            assert(s.contains(rtt_max(s)));
        } else {
            let j = choose|j: int| 0 <= j < pre.len() && pre[j] == rtt_max(pre);
            assert(s[j] == rtt_max(s));
        }
    }
}

/// The sum of a non-empty sequence of times sits between its least element
/// scaled by the length and its greatest element scaled by the length.
pub proof fn lemma_rtt_sum_bounds(s: Seq<u64>)
    requires
        s.len() > 0,
    ensures
        rtt_min(s) * s.len() <= rtt_sum(s) <= rtt_max(s) * s.len(),
    decreases s.len(),
{
    if s.len() == 1 {
        assert(rtt_sum(s) == rtt_sum(s.drop_last()) + s.last());
        assert(rtt_sum(s.drop_last()) == 0);
    } else {
        let pre = s.drop_last();
        lemma_rtt_sum_bounds(pre);
        assert(rtt_min(s) * pre.len() <= rtt_min(pre) * pre.len()) by (nonlinear_arith)
            requires
                rtt_min(s) <= rtt_min(pre),
                pre.len() >= 0,
        {}
        assert(rtt_max(pre) * pre.len() <= rtt_max(s) * pre.len()) by (nonlinear_arith)
            requires
                rtt_max(pre) <= rtt_max(s),
                pre.len() >= 0,
        {}
        assert(rtt_min(s) * s.len() == rtt_min(s) * pre.len() + rtt_min(s)) by (nonlinear_arith)
            requires
                s.len() == pre.len() + 1,
        {}
        assert(rtt_max(s) * s.len() == rtt_max(s) * pre.len() + rtt_max(s)) by (nonlinear_arith)
            requires
                s.len() == pre.len() + 1,
        {}
    }
}

/// Dividing a sum of times by their count lands between the least and the
/// greatest of them.
pub proof fn lemma_rtt_avg_bounds(s: Seq<u64>)
    requires
        s.len() > 0,
    ensures
        rtt_min(s) <= rtt_sum(s) / (s.len() as int) <= rtt_max(s),
{
    let n = s.len() as int;
    lemma_rtt_sum_bounds(s);
    lemma_div_is_ordered(rtt_min(s) * n, rtt_sum(s), n);
    lemma_div_is_ordered(rtt_sum(s), rtt_max(s) * n, n);
    lemma_div_multiples_vanish(rtt_min(s) as int, n);
    lemma_div_multiples_vanish(rtt_max(s) as int, n);
    assert(rtt_min(s) * n == n * rtt_min(s)) by (nonlinear_arith);
    assert(rtt_max(s) * n == n * rtt_max(s)) by (nonlinear_arith);
}

/// Folds a finished ping session's responses into its summary statistics.
///
/// Every response that was issued is counted as transmitted; only `Done`
/// responses count as received, and the min/avg/max round trip times are
/// taken over those alone.  A session with nothing received reports
/// `min = avg = max = 0`.
pub fn compute_ping_stat(responses: Vec<PingResponse>, probe_time: u64) -> (stat: PingStat)
    ensures
        stat.responses@ == responses@,
        stat.probe_time == probe_time,
        stat.transmitted_count == responses@.len(),
        stat.received_count == done_rtts(responses@).len(),
        stat.received_count <= stat.transmitted_count,
        stat.received_count == 0 ==> stat.min == 0 && stat.avg == 0 && stat.max == 0,
        stat.received_count > 0 ==> {
            &&& stat.min == rtt_min(done_rtts(responses@))
            &&& stat.max == rtt_max(done_rtts(responses@))
            &&& stat.avg == rtt_sum(done_rtts(responses@)) / (done_rtts(responses@).len() as int)
            &&& stat.min <= stat.avg <= stat.max
            &&& done_rtts(responses@).contains(stat.min)
            &&& done_rtts(responses@).contains(stat.max)
        },
{
    let n: usize = responses.len();
    let mut count: usize = 0;
    let mut sum: u128 = 0;
    let mut mn: u64 = 0;
    let mut mx: u64 = 0;
    let mut i: usize = 0;
    proof {
        assert(responses@.take(0) =~= Seq::<PingResponse>::empty());
    }
    while i < n
        invariant
            i <= n,
            n == responses@.len(),
            count == done_rtts(responses@.take(i as int)).len(),
            count <= i,
            sum == rtt_sum(done_rtts(responses@.take(i as int))),
            sum <= count * 0xffff_ffff_ffff_ffffu128,
            count == 0 ==> mn == 0 && mx == 0,
            count > 0 ==> mn == rtt_min(done_rtts(responses@.take(i as int))) && mx == rtt_max(
                done_rtts(responses@.take(i as int)),
            ),
        decreases n - i,
    {
        let ghost pre = responses@.take(i as int);
        let ghost post = responses@.take(i + 1);
        proof {
            assert(post =~= pre.push(responses@[i as int]));
            assert(post.drop_last() =~= pre);
            assert(post.last() == responses@[i as int]);
        }
        let resp = &responses[i];
        if matches!(resp.status, ProbeStatus::Done) {
            let ghost ds = done_rtts(pre);
            proof {
                assert(done_rtts(post) == ds.push(responses@[i as int].rtt));
                assert(done_rtts(post).drop_last() =~= ds);
                assert((count + 1) * 0xffff_ffff_ffff_ffffu128 == count
                    * 0xffff_ffff_ffff_ffffu128 + 0xffff_ffff_ffff_ffffu128) by (nonlinear_arith);
            }
            let rtt: u64 = resp.rtt;
            if count == 0 {
                mn = rtt;
                mx = rtt;
            } else {
                if rtt < mn {
                    mn = rtt;
                }
                if rtt > mx {
                    mx = rtt;
                }
            }
            sum = sum + rtt as u128;
            count = count + 1;
        } else {
            proof {
                assert(done_rtts(post) == done_rtts(pre));
            }
        }
        i = i + 1;
    }
    proof {
        assert(responses@.take(n as int) =~= responses@);
    }
    let avg: u64 = if count == 0 {
        0u64
    } else {
        let ghost ds = done_rtts(responses@);
        proof {
            lemma_rtt_avg_bounds(ds);
            lemma_rtt_bounds(ds);
            assert(rtt_sum(ds) >= 0) by {
                lemma_rtt_sum_bounds(ds);
                assert(rtt_min(ds) * ds.len() >= 0) by (nonlinear_arith)
                    requires
                        rtt_min(ds) >= 0,
                        ds.len() > 0,
                {}
            }
        }
        let q: u128 = sum / (count as u128);
        proof {
            assert(q == rtt_sum(ds) / (ds.len() as int));
            assert(q <= rtt_max(ds));
        }
        q as u64
    };
    PingStat {
        responses,
        probe_time,
        transmitted_count: n,
        received_count: count,
        min: mn,
        avg,
        max: mx,
    }
}

/// True when some response of the session succeeded.
pub open spec fn any_done(s: Seq<PingResponse>) -> bool {
    exists|i: int| 0 <= i < s.len() && s[i].status is Done
}

/// True when some response of the session failed hard.
pub open spec fn any_error(s: Seq<PingResponse>) -> bool {
    exists|i: int| 0 <= i < s.len() && s[i].status is Error
}

/// Derives the overall status of a session from its responses.
///
/// Precedence is fixed as `Done` over `Error` over `Timeout`: the session
/// is `Done` when any probe succeeded; otherwise `Error` when any probe
/// failed hard; otherwise `Timeout`.  A session with no responses at all
/// never got a probe off the ground and reports `Error`.
pub fn overall_status(responses: &Vec<PingResponse>) -> (r: ProbeStatus)
    ensures
        any_done(responses@) ==> r is Done,
        !any_done(responses@) && any_error(responses@) ==> r is Error,
        !any_done(responses@) && !any_error(responses@) && responses@.len() > 0 ==> r is Timeout,
        responses@.len() == 0 ==> r is Error,
{
    let n: usize = responses.len();
    let mut has_done: bool = false;
    let mut has_error: bool = false;
    let mut i: usize = 0;
    while i < n
        invariant
            i <= n,
            n == responses@.len(),
            has_done == any_done(responses@.take(i as int)),
            has_error == any_error(responses@.take(i as int)),
        decreases n - i,
    {
        let ghost pre = responses@.take(i as int);
        let ghost post = responses@.take(i + 1);
        proof {
            assert(post =~= pre.push(responses@[i as int]));
            assert(forall|j: int| 0 <= j < pre.len() ==> post[j] == pre[j]);
            assert(post[post.len() - 1] == responses@[i as int]);
        }
        match responses[i].status {
            ProbeStatus::Done => {
                has_done = true;
                proof {
                    assert(post[i as int].status is Done);
                }
            },
            ProbeStatus::Error => {
                has_error = true;
                proof {
                    assert(post[i as int].status is Error);
                    if !has_done {
                        assert(!any_done(post)) by {
                            assert(forall|j: int|
                                0 <= j < post.len() ==> !(#[trigger] post[j].status is Done));
                        }
                    }
                }
            },
            ProbeStatus::Timeout => {
                proof {
                    if !has_done {
                        assert(forall|j: int|
                            0 <= j < post.len() ==> !(#[trigger] post[j].status is Done));
                    }
                    if !has_error {
                        assert(forall|j: int|
                            0 <= j < post.len() ==> !(#[trigger] post[j].status is Error));
                    }
                }
            },
        }
        i = i + 1;
    }
    proof {
        assert(responses@.take(n as int) =~= responses@);
    }
    if has_done {
        ProbeStatus::Done
    } else if has_error {
        ProbeStatus::Error
    } else if n > 0 {
        ProbeStatus::Timeout
    } else {
        ProbeStatus::Error
    }
}

/// Hops ordered by their sequence number, low to high.
pub open spec fn sorted_by_seq(s: Seq<PingResponse>) -> bool {
    forall|i: int, j: int| 0 <= i < j < s.len() ==> #[trigger] s[i].seq <= #[trigger] s[j].seq
}

/// Reorders traceroute responses by sequence number, low to high, keeping
/// exactly the given responses.  Outcomes may arrive out of dispatch order;
/// the hop order of the path is recovered from each record's own sequence
/// number.
pub fn order_hops(nodes: Vec<PingResponse>) -> (r: Vec<PingResponse>)
    ensures
        sorted_by_seq(r@),
        r@.to_multiset() == nodes@.to_multiset(),
        r@.len() == nodes@.len(),
{
    broadcast use vstd::seq_lib::group_to_multiset_ensures;
    broadcast use vstd::multiset::group_multiset_axioms;

    let mut rest = nodes;
    let mut out: Vec<PingResponse> = Vec::new();
    proof {
        assert(out@.to_multiset() =~= Multiset::<PingResponse>::empty());
        assert(out@.to_multiset().add(rest@.to_multiset()) =~= rest@.to_multiset());
    }
    let ghost orig = rest@;
    while rest.len() > 0
        invariant
            sorted_by_seq(out@),
            out@.to_multiset().add(rest@.to_multiset()) =~= orig.to_multiset(),
            out@.len() + rest@.len() == orig.len(),
        decreases rest.len(),
    {
        let ghost rest0 = rest@;
        let x = rest.remove(0);
        proof {
            rest0.to_multiset_ensures();
            assert(rest0.contains(x)) by {
                assert(rest0[0] == x);
            }
            assert(rest@.to_multiset() =~= rest0.to_multiset().remove(x));
        }
        let mut p: usize = 0;
        while p < out.len() && out[p].seq <= x.seq
            invariant
                p <= out@.len(),
                forall|k: int| 0 <= k < p ==> #[trigger] out@[k].seq <= x.seq,
            decreases out@.len() - p,
        {
            p = p + 1;
        }
        let ghost out0 = out@;
        proof {
            assert(p < out0.len() ==> out0[p as int].seq > x.seq);
            lemma_insert_to_multiset(out0, p as int, x);
            out0.insert_ensures(p as int, x);
        }
        out.insert(p, x);
        proof {
            assert(sorted_by_seq(out@)) by {
                assert(forall|k: int| 0 <= k < p ==> out@[k] == out0[k]);
                assert(out@[p as int] == x);
                assert(forall|k: int| p < k < out@.len() ==> out@[k] == out0[k - 1]);
                assert(forall|k: int|
                    p < k < out@.len() ==> x.seq <= #[trigger] out@[k].seq) by {
                    assert(forall|k: int|
                        p <= k < out0.len() ==> x.seq <= #[trigger] out0[k].seq);
                }
            }
            assert(out@.to_multiset().add(rest@.to_multiset()) =~= orig.to_multiset());
        }
    }
    proof {
        assert(rest@.to_multiset() =~= Multiset::<PingResponse>::empty()) by {
            assert(rest@ =~= Seq::<PingResponse>::empty());
        }
        assert(out@.to_multiset().add(Multiset::<PingResponse>::empty()) =~= out@.to_multiset());
    }
    out
}

/// Index of the first response answered by the destination itself, if any.
pub open spec fn has_destination(s: Seq<PingResponse>) -> bool {
    exists|i: int| 0 <= i < s.len() && s[i].node_type is Destination
}

/// Cuts a hop list short at the destination: hops after the first
/// destination reply are dropped, since the session ends there.
pub fn truncate_at_destination(nodes: Vec<PingResponse>) -> (r: Vec<PingResponse>)
    ensures
        !has_destination(nodes@) ==> r@ == nodes@,
        has_destination(nodes@) ==> exists|k: int|
            {
                &&& 0 <= k < nodes@.len()
                &&& nodes@[k].node_type is Destination
                &&& forall|j: int| 0 <= j < k ==> !(#[trigger] nodes@[j].node_type is Destination)
                &&& r@ == nodes@.subrange(0, k + 1)
            },
{
    let n: usize = nodes.len();
    let mut i: usize = 0;
    while i < n
        invariant
            i <= n,
            n == nodes@.len(),
            forall|j: int| 0 <= j < i ==> !(#[trigger] nodes@[j].node_type is Destination),
        decreases n - i,
    {
        if matches!(nodes[i].node_type, crate::model::NodeType::Destination) {
            let mut r = nodes;
            r.truncate(i + 1);
            proof {
                assert(r@ == nodes@.subrange(0, i + 1));
            }
            return r;
        }
        i = i + 1;
    }
    nodes
}

/// Every node answers to a different address.
pub open spec fn distinct_ips(nodes: Seq<NodeInfo>) -> bool {
    forall|i: int, j: int|
        0 <= i < j < nodes.len() ==> (#[trigger] nodes[i]).ip_addr != (#[trigger] nodes[j]).ip_addr
}

/// Some node for `ip` records `port` among its open ports.
pub open spec fn has_open_port(nodes: Seq<NodeInfo>, ip: IpAddress, port: u16) -> bool {
    exists|i: int, p: int|
        #![trigger nodes[i].ports@[p]]
        0 <= i < nodes.len() && 0 <= p < nodes[i].ports@.len() && nodes[i].ip_addr == ip
            && nodes[i].ports@[p].port_number == port
}

/// Every successful per-port outcome among the first `upto` responses is
/// recorded on its target's node.
pub open spec fn outcomes_recorded(
    nodes: Seq<NodeInfo>,
    responses: Seq<PingResponse>,
    upto: int,
) -> bool {
    forall|k: int|
        0 <= k < upto ==> (match (#[trigger] responses[k]).port_number {
            Some(pn) => responses[k].status is Done ==> has_open_port(
                nodes,
                responses[k].ip_addr,
                pn,
            ),
            None => true,
        })
}

/// The port at position `p` of node `i` stems from a successful outcome
/// against that node.
pub open spec fn port_justified_at(
    nodes: Seq<NodeInfo>,
    responses: Seq<PingResponse>,
    i: int,
    p: int,
) -> bool {
    exists|k: int|
        0 <= k < responses.len() && (#[trigger] responses[k]).status is Done
            && responses[k].ip_addr == nodes[i].ip_addr && responses[k].port_number == Some(
            nodes[i].ports@[p].port_number,
        )
}

/// Every recorded port stems from a successful outcome against that node.
pub open spec fn ports_justified(nodes: Seq<NodeInfo>, responses: Seq<PingResponse>) -> bool {
    forall|i: int, p: int|
        0 <= i < nodes.len() && 0 <= p < nodes[i].ports@.len() ==> #[trigger] port_justified_at(
            nodes,
            responses,
            i,
            p,
        )
}

/// Growing one node's port list by a justified port keeps the grouping
/// sound.
proof fn lemma_group_extend(
    before: Seq<NodeInfo>,
    after: Seq<NodeInfo>,
    responses: Seq<PingResponse>,
    upto: int,
    idx: int,
)
    requires
        0 <= idx < before.len(),
        after.len() == before.len(),
        forall|i: int| 0 <= i < after.len() && i != idx ==> after[i] == before[i],
        after[idx].ip_addr == before[idx].ip_addr,
        after[idx].ports@.len() == before[idx].ports@.len() + 1,
        forall|p: int|
            0 <= p < before[idx].ports@.len() ==> (#[trigger] after[idx].ports@[p])
                == before[idx].ports@[p],
        distinct_ips(before),
        outcomes_recorded(before, responses, upto),
        ports_justified(before, responses),
        exists|k: int|
            0 <= k < responses.len() && (#[trigger] responses[k]).status is Done
                && responses[k].ip_addr == after[idx].ip_addr && responses[k].port_number == Some(
                after[idx].ports@[after[idx].ports@.len() - 1].port_number,
            ),
    ensures
        distinct_ips(after),
        outcomes_recorded(after, responses, upto),
        ports_justified(after, responses),
{
    assert(forall|i: int|
        0 <= i < after.len() ==> (#[trigger] after[i]).ip_addr == before[i].ip_addr);
    assert forall|k2: int| 0 <= k2 < upto implies (match (#[trigger] responses[k2]).port_number {
        Some(pn) => responses[k2].status is Done ==> has_open_port(
            after,
            responses[k2].ip_addr,
            pn,
        ),
        None => true,
    }) by {
        match responses[k2].port_number {
            Some(pn) => {
                if responses[k2].status is Done {
                    assert(has_open_port(before, responses[k2].ip_addr, pn));
                    let (i, p) = choose|i: int, p: int|
                        0 <= i < before.len() && 0 <= p < before[i].ports@.len() && before[
                            i
                        ].ip_addr == responses[k2].ip_addr && (#[trigger] before[i].ports@[
                            p
                        ]).port_number == pn;
                    assert(after[i].ports@[p] == before[i].ports@[p]);
                    assert(has_open_port(after, responses[k2].ip_addr, pn));
                }
            },
            None => {},
        }
    }
    assert forall|i: int, p: int|
        0 <= i < after.len() && 0 <= p < after[i].ports@.len() implies #[trigger] port_justified_at(
        after,
        responses,
        i,
        p,
    ) by {
        if i == idx && p == after[idx].ports@.len() - 1 {
            let kk = choose|kk: int|
                0 <= kk < responses.len() && (#[trigger] responses[kk]).status is Done
                    && responses[kk].ip_addr == after[idx].ip_addr && responses[kk].port_number
                    == Some(after[idx].ports@[after[idx].ports@.len() - 1].port_number);
            assert(responses[kk].port_number == Some(after[i].ports@[p].port_number));
        } else {
            assert(after[i].ports@[p] == before[i].ports@[p]);
            assert(0 <= p < before[i].ports@.len());
            assert(after[i].ip_addr == before[i].ip_addr);
            assert(port_justified_at(before, responses, i, p));
            let kk = choose|kk: int|
                0 <= kk < responses.len() && (#[trigger] responses[kk]).status is Done
                    && responses[kk].ip_addr == before[i].ip_addr && responses[kk].port_number
                    == Some(before[i].ports@[p].port_number);
            assert(responses[kk].port_number == Some(after[i].ports@[p].port_number));
        }
    }
}

/// Opening a new node for a justified port keeps the grouping sound.
proof fn lemma_group_append(
    before: Seq<NodeInfo>,
    after: Seq<NodeInfo>,
    responses: Seq<PingResponse>,
    upto: int,
)
    requires
        after.len() == before.len() + 1,
        forall|i: int| 0 <= i < before.len() ==> (#[trigger] after[i]) == before[i],
        forall|i: int|
            0 <= i < before.len() ==> (#[trigger] before[i]).ip_addr != after[
                after.len() - 1
            ].ip_addr,
        after[after.len() - 1].ports@.len() == 1,
        distinct_ips(before),
        outcomes_recorded(before, responses, upto),
        ports_justified(before, responses),
        exists|k: int|
            0 <= k < responses.len() && (#[trigger] responses[k]).status is Done
                && responses[k].ip_addr == after[after.len() - 1].ip_addr && responses[
                k
            ].port_number == Some(after[after.len() - 1].ports@[0].port_number),
    ensures
        distinct_ips(after),
        outcomes_recorded(after, responses, upto),
        ports_justified(after, responses),
{
    assert forall|k2: int| 0 <= k2 < upto implies (match (#[trigger] responses[k2]).port_number {
        Some(pn) => responses[k2].status is Done ==> has_open_port(
            after,
            responses[k2].ip_addr,
            pn,
        ),
        None => true,
    }) by {
        match responses[k2].port_number {
            Some(pn) => {
                if responses[k2].status is Done {
                    assert(has_open_port(before, responses[k2].ip_addr, pn));
                    let (i, p) = choose|i: int, p: int|
                        0 <= i < before.len() && 0 <= p < before[i].ports@.len() && before[
                            i
                        ].ip_addr == responses[k2].ip_addr && (#[trigger] before[i].ports@[
                            p
                        ]).port_number == pn;
                    assert(after[i].ports@[p] == before[i].ports@[p]);
                    assert(has_open_port(after, responses[k2].ip_addr, pn));
                }
            },
            None => {},
        }
    }
    assert forall|i: int, p: int|
        0 <= i < after.len() && 0 <= p < after[i].ports@.len() implies #[trigger] port_justified_at(
        after,
        responses,
        i,
        p,
    ) by {
        if i < before.len() {
            assert(after[i].ports@[p] == before[i].ports@[p]);
            assert(after[i].ip_addr == before[i].ip_addr);
            assert(port_justified_at(before, responses, i, p));
            let kk = choose|kk: int|
                0 <= kk < responses.len() && (#[trigger] responses[kk]).status is Done
                    && responses[kk].ip_addr == before[i].ip_addr && responses[kk].port_number
                    == Some(before[i].ports@[p].port_number);
            assert(responses[kk].port_number == Some(after[i].ports@[p].port_number));
        } else {
            assert(i == after.len() - 1);
            assert(p == 0);
            let kk = choose|kk: int|
                0 <= kk < responses.len() && (#[trigger] responses[kk]).status is Done
                    && responses[kk].ip_addr == after[after.len() - 1].ip_addr && responses[
                    kk
                ].port_number == Some(after[after.len() - 1].ports@[0].port_number);
            assert(responses[kk].port_number == Some(after[i].ports@[p].port_number));
        }
    }
}

/// Groups a scan's per-port outcomes by target: one node per responding
/// address, carrying exactly the ports that answered, marked open.
/// Service and OS labels are attached afterwards by the fingerprint
/// resolver.
pub fn group_open_ports(responses: &Vec<PingResponse>) -> (r: Vec<NodeInfo>)
    ensures
        distinct_ips(r@),
        outcomes_recorded(r@, responses@, responses@.len() as int),
        ports_justified(r@, responses@),
        forall|i: int| 0 <= i < r@.len() ==> (#[trigger] r@[i]).ports@.len() > 0,
{
    let n: usize = responses.len();
    let mut nodes: Vec<NodeInfo> = Vec::new();
    let mut k: usize = 0;
    while k < n
        invariant
            k <= n,
            n == responses@.len(),
            distinct_ips(nodes@),
            outcomes_recorded(nodes@, responses@, k as int),
            ports_justified(nodes@, responses@),
            forall|i: int| 0 <= i < nodes@.len() ==> (#[trigger] nodes@[i]).ports@.len() > 0,
        decreases n - k,
    {
        let resp = &responses[k];
        let mut hit: bool = false;
        if matches!(resp.status, ProbeStatus::Done) {
            if let Some(port) = resp.port_number {
                let entry = PortInfo {
                    port_number: port,
                    port_status: String::from_str("open"),
                    service_name: String::new(),
                    service_version: String::new(),
                };
                let mut idx: usize = 0;
                let mut found: bool = false;
                let node_count: usize = nodes.len();
                while idx < node_count
                    invariant_except_break
                        idx <= node_count,
                        node_count == nodes@.len(),
                        !found,
                        forall|i: int|
                            0 <= i < idx ==> (#[trigger] nodes@[i]).ip_addr != resp.ip_addr,
                    ensures
                        found ==> idx < node_count && nodes@[idx as int].ip_addr == resp.ip_addr,
                        !found ==> forall|i: int|
                            0 <= i < node_count ==> (#[trigger] nodes@[i]).ip_addr
                                != resp.ip_addr,
                    decreases node_count - idx,
                {
                    if nodes[idx].ip_addr == resp.ip_addr {
                        found = true;
                        break;
                    }
                    idx = idx + 1;
                }
                let ghost before = nodes@;
                if found {
                    let mut node = nodes.remove(idx);
                    let ghost ports0 = node.ports@;
                    node.ports.push(entry);
                    nodes.insert(idx, node);
                    proof {
                        assert(nodes@ =~= before.update(idx as int, node));
                        assert(forall|i: int|
                            0 <= i < nodes@.len() && i != idx ==> nodes@[i] == before[i]);
                        assert(nodes@[idx as int].ports@ == ports0.push(entry));
                        assert(responses@[k as int].port_number == Some(
                            nodes@[idx as int].ports@[nodes@[idx as int].ports@.len()
                                - 1].port_number,
                        ));
                        lemma_group_extend(before, nodes@, responses@, k as int, idx as int);
                    }
                } else {
                    let mut first_ports: Vec<PortInfo> = Vec::new();
                    first_ports.push(entry);
                    let node = NodeInfo {
                        ip_addr: resp.ip_addr,
                        host_name: resp.host_name.clone(),
                        mac_addr: String::new(),
                        vendor_info: String::new(),
                        os_name: String::new(),
                        cpe: String::new(),
                        ports: first_ports,
                    };
                    nodes.push(node);
                    proof {
                        assert(forall|i: int|
                            0 <= i < before.len() ==> (#[trigger] nodes@[i]) == before[i]);
                        assert(nodes@[nodes@.len() - 1].ports@.len() == 1);
                        assert(responses@[k as int].port_number == Some(
                            nodes@[nodes@.len() - 1].ports@[0].port_number,
                        ));
                        lemma_group_append(before, nodes@, responses@, k as int);
                    }
                }
                hit = true;
                proof {
                    assert(has_open_port(nodes@, responses@[k as int].ip_addr, port)) by {
                        if found {
                            let i = idx as int;
                            let p = nodes@[i].ports@.len() - 1;
                            assert(nodes@[i].ports@[p].port_number == port);
                        } else {
                            let i = nodes@.len() - 1;
                            assert(nodes@[i].ports@[0].port_number == port);
                        }
                    }
                }
            }
        }
        proof {
            if hit {
                assert(outcomes_recorded(nodes@, responses@, k + 1));
            } else {
                assert(outcomes_recorded(nodes@, responses@, k + 1));
            }
        }
        k = k + 1;
    }
    nodes
}

} // verus!
