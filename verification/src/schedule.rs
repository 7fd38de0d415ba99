//! Scheduling policy: which ports a scan visits, what a subnet target
//! expands to, in what order targets are probed, and how a session that
//! hits its overall deadline is closed out.
//!
//! The actual sending and waiting happens outside the library; these
//! functions fix the decisions the scheduler makes around it.

use vstd::prelude::*;

use crate::result::{PingResponse, ProbeStatus};
use crate::seq_facts::lemma_swap_to_multiset;

verus! {

/// Deterministic generator behind the randomized probing order.  One
/// generator is seeded per scan invocation (see [`order_seed`]), so
/// repeated scans of the same input need not probe in the same sequence.
/// Its view is its state, so what it draws is a function of the seed.
pub struct OrderRng {
    state: u64,
}

impl View for OrderRng {
    type V = u64;

    closed spec fn view(&self) -> u64 {
        self.state
    }
}

/// One turn of the generator's recurrence.
pub open spec fn rng_step(s: u64) -> u64 {
    s.wrapping_mul(6364136223846793005).wrapping_add(1442695040888963407)
}

impl OrderRng {
    pub fn new(seed: u64) -> (r: OrderRng)
        ensures
            r@ == seed,
    {
        OrderRng { state: seed }
    }

    /// Draws the next value, below `bound`.
    pub fn next_below(&mut self, bound: u64) -> (r: u64)
        requires
            bound > 0,
        ensures
            final(self)@ == rng_step(old(self)@),
            r == (rng_step(old(self)@) >> 33u64) % bound,
            r < bound,
    {
        self.state = self.state.wrapping_mul(6364136223846793005).wrapping_add(
            1442695040888963407,
        );
        (self.state >> 33) % bound
    }
}

/// Seed folded from a piece of text, e.g. the session's probe identifier;
/// deriving it from a fresh identifier re-seeds the order per invocation.
pub open spec fn seed_of(s: Seq<char>) -> u64
    decreases s.len(),
{
    if s.len() == 0 {
        0xcbf29ce484222325u64
    } else {
        seed_of(s.drop_last()).wrapping_mul(0x100000001b3).wrapping_add(s.last() as u64)
    }
}

/// Folds a piece of text into an order seed.
pub fn order_seed(s: &str) -> (r: u64)
    ensures
        r == seed_of(s@),
{
    let n: usize = s.unicode_len();
    let mut h: u64 = 0xcbf29ce484222325;
    let mut i: usize = 0;
    proof {
        assert(s@.take(0) =~= Seq::<char>::empty());
    }
    while i < n
        invariant
            i <= n,
            n == s@.len(),
            h == seed_of(s@.take(i as int)),
        decreases n - i,
    {
        let c: char = s.get_char(i);
        proof {
            assert(s@.take(i + 1).drop_last() =~= s@.take(i as int));
            assert(s@.take(i + 1).last() == s@[i as int]);
        }
        h = h.wrapping_mul(0x100000001b3).wrapping_add(c as u64);
        i = i + 1;
    }
    proof {
        assert(s@.take(n as int) =~= s@);
    }
    h
}

/// Copies a port list.
fn copy_ports(v: &Vec<u16>) -> (r: Vec<u16>)
    ensures
        r@ == v@,
{
    let mut r: Vec<u16> = Vec::new();
    let n: usize = v.len();
    let mut i: usize = 0;
    while i < n
        invariant
            i <= n,
            n == v@.len(),
            r@ == v@.take(i as int),
        decreases n - i,
    {
        r.push(v[i]);
        proof {
            assert(v@.take(i + 1) =~= v@.take(i as int).push(v@[i as int]));
        }
        i = i + 1;
    }
    proof {
        assert(v@.take(n as int) =~= v@);
    }
    r
}

/// Chooses the ports a port scan will probe.
///
/// "Full" overrides everything with the whole 1-65535 range; otherwise an
/// explicit port list wins; otherwise an explicit range; otherwise the
/// externally supplied default-service port set stands in.
pub fn select_ports(
    full: bool,
    explicit: &Vec<u16>,
    range: Option<(u16, u16)>,
    defaults: &Vec<u16>,
) -> (r: Vec<u16>)
    ensures
        full ==> r@.len() == 65535 && (forall|k: int| 0 <= k < r@.len() ==> r@[k] == k + 1),
        !full && explicit@.len() > 0 ==> r@ == explicit@,
        !full && explicit@.len() == 0 ==> (match range {
            Some(pr) => {
                if pr.0 <= pr.1 {
                    r@.len() == pr.1 - pr.0 + 1 && (forall|k: int|
                        0 <= k < r@.len() ==> r@[k] == pr.0 + k)
                } else {
                    r@.len() == 0
                }
            },
            None => r@ == defaults@,
        }),
{
    if full {
        let mut r: Vec<u16> = Vec::new();
        let mut p: u32 = 1;
        while p <= 65535
            invariant
                1 <= p <= 65536,
                r@.len() == p - 1,
                forall|k: int| 0 <= k < r@.len() ==> r@[k] == k + 1,
            decreases 65536 - p,
        {
            r.push(p as u16);
            p = p + 1;
        }
        r
    } else if explicit.len() > 0 {
        copy_ports(explicit)
    } else if let Some(pr) = range {
        let (lo, hi) = pr;
        let mut r: Vec<u16> = Vec::new();
        if lo <= hi {
            let mut p: u32 = lo as u32;
            while p <= hi as u32
                invariant
                    lo <= p <= hi + 1,
                    r@.len() == p - lo,
                    forall|k: int| 0 <= k < r@.len() ==> r@[k] == lo + k,
                decreases hi + 1 - p,
            {
                r.push(p as u16);
                p = p + 1;
            }
        }
        r
    } else {
        copy_ports(defaults)
    }
}

/// Puts the targets of a scan in probing order.
///
/// With randomizing on, the order is shuffled from the generator's draws;
/// with it off, the input order is kept.  Either way the result visits
/// every given target exactly once: it holds exactly the elements of the
/// input.
pub fn arrange_targets<T: Copy>(targets: Vec<T>, randomize: bool, rng: &mut OrderRng) -> (r: Vec<
    T,
>)
    ensures
        r@.len() == targets@.len(),
        r@.to_multiset() == targets@.to_multiset(),
        !randomize ==> r@ == targets@,
{
    if !randomize {
        return targets;
    }
    let mut v = targets;
    let n: usize = v.len();
    if n == 0 {
        return v;
    }
    let ghost orig = v@;
    let mut i: usize = n - 1;
    while i > 0
        invariant
            i < n,
            n == v@.len(),
            v@.to_multiset() == orig.to_multiset(),
        decreases i,
    {
        let j: usize = rng.next_below((i as u64) + 1) as usize;
        let a: T = v[i];
        let b: T = v[j];
        let ghost s0 = v@;
        v.set(i, b);
        v.set(j, a);
        proof {
            lemma_swap_to_multiset(s0, i as int, j as int);
            assert(v@ =~= s0.update(i as int, s0[j as int]).update(j as int, s0[i as int]));
        }
        i = i - 1;
    }
    v
}

/// Number of addresses a prefix length spans.
pub open spec fn ipv4_net_size(prefix: int) -> nat {
    if prefix == 16 {
        0x10000
    } else if prefix == 17 {
        0x8000
    } else if prefix == 18 {
        0x4000
    } else if prefix == 19 {
        0x2000
    } else if prefix == 20 {
        0x1000
    } else if prefix == 21 {
        0x800
    } else if prefix == 22 {
        0x400
    } else if prefix == 23 {
        0x200
    } else if prefix == 24 {
        0x100
    } else if prefix == 25 {
        0x80
    } else if prefix == 26 {
        0x40
    } else if prefix == 27 {
        0x20
    } else if prefix == 28 {
        0x10
    } else if prefix == 29 {
        0x8
    } else if prefix == 30 {
        0x4
    } else if prefix == 31 {
        0x2
    } else {
        0x1
    }
}

/// First address of the network an address belongs to: the address with
/// its host bits cleared.
pub open spec fn ipv4_net_base(addr: u32, prefix: int) -> int {
    (addr as int / ipv4_net_size(prefix) as int) * ipv4_net_size(prefix) as int
}

/// Expands an IPv4 network into its full address list: every address of
/// the prefix, base first, in order.  Prefixes shorter than 16 are
/// refused, which bounds the expansion at 65536 addresses.
pub fn expand_ipv4_network(addr: u32, prefix: u8) -> (r: Vec<u32>)
    requires
        16 <= prefix <= 32,
    ensures
        r@.len() == ipv4_net_size(prefix as int),
        forall|k: int| 0 <= k < r@.len() ==> r@[k] == ipv4_net_base(addr, prefix as int) + k,
{
    let size: u32 = match prefix {
        16 => 0x10000,
        17 => 0x8000,
        18 => 0x4000,
        19 => 0x2000,
        20 => 0x1000,
        21 => 0x800,
        22 => 0x400,
        23 => 0x200,
        24 => 0x100,
        25 => 0x80,
        26 => 0x40,
        27 => 0x20,
        28 => 0x10,
        29 => 0x8,
        30 => 0x4,
        31 => 0x2,
        _ => 0x1,
    };
    proof {
        assert(size == ipv4_net_size(prefix as int));
        assert(0x100000000int % (size as int) == 0) by {
            if prefix == 16 {
                assert(0x100000000int % 0x10000int == 0);
            } else if prefix == 17 {
                assert(0x100000000int % 0x8000int == 0);
            } else if prefix == 18 {
                assert(0x100000000int % 0x4000int == 0);
            } else if prefix == 19 {
                assert(0x100000000int % 0x2000int == 0);
            } else if prefix == 20 {
                assert(0x100000000int % 0x1000int == 0);
            } else if prefix == 21 {
                assert(0x100000000int % 0x800int == 0);
            } else if prefix == 22 {
                assert(0x100000000int % 0x400int == 0);
            } else if prefix == 23 {
                assert(0x100000000int % 0x200int == 0);
            } else if prefix == 24 {
                assert(0x100000000int % 0x100int == 0);
            } else if prefix == 25 {
                assert(0x100000000int % 0x80int == 0);
            } else if prefix == 26 {
                assert(0x100000000int % 0x40int == 0);
            } else if prefix == 27 {
                assert(0x100000000int % 0x20int == 0);
            } else if prefix == 28 {
                assert(0x100000000int % 0x10int == 0);
            } else if prefix == 29 {
                assert(0x100000000int % 0x8int == 0);
            } else if prefix == 30 {
                assert(0x100000000int % 0x4int == 0);
            } else if prefix == 31 {
                assert(0x100000000int % 0x2int == 0);
            } else {
                assert(0x100000000int % 0x1int == 0);
            }
        }
    }
    let q: u32 = addr / size;
    proof {
        assert(q * size <= addr) by (nonlinear_arith)
            requires
                q == addr / size,
                size > 0,
        {}
    }
    let base: u32 = q * size;
    proof {
        let sz = size as int;
        vstd::arithmetic::div_mod::lemma_fundamental_div_mod(0x100000000int, sz);
        let m = 0x100000000int / sz;
        assert(sz * m == 0x100000000int);
        assert((q as int) < m) by (nonlinear_arith)
            requires
                q * size <= addr,
                addr < 0x100000000int,
                sz * m == 0x100000000int,
                sz == size,
                size > 0,
        {}
        assert((q as int + 1) * sz <= m * sz) by (nonlinear_arith)
            requires
                (q as int) < m,
                sz > 0,
        {}
        assert(m * sz == sz * m) by (nonlinear_arith);
        assert(base + size <= 0x100000000int) by (nonlinear_arith)
            requires
                base == q * size,
                sz == size,
                (q as int + 1) * sz <= 0x100000000int,
        {}
    }
    let mut r: Vec<u32> = Vec::new();
    let mut k: u32 = 0;
    while k < size
        invariant
            k <= size,
            base + size <= 0x100000000int,
            r@.len() == k,
            forall|j: int| 0 <= j < r@.len() ==> r@[j] == base + j,
        decreases size - k,
    {
        r.push(base + k);
        k = k + 1;
    }
    r
}

/// The first `upto` planned sequence numbers all have an outcome among
/// the responses.
pub open spec fn covers_planned(r: Seq<PingResponse>, planned: Seq<u8>, upto: int) -> bool {
    forall|k: int|
        0 <= k < upto ==> exists|i: int|
            0 <= i < r.len() && (#[trigger] r[i]).seq == #[trigger] planned[k]
}

/// Every response from position `from` on answers to one of the planned
/// sequence numbers.
pub open spec fn appended_are_planned(r: Seq<PingResponse>, planned: Seq<u8>, from: int) -> bool {
    forall|i: int|
        from <= i < r.len() ==> exists|k: int|
            0 <= k < planned.len() && (#[trigger] r[i]).seq == #[trigger] planned[k]
}

/// Finalizes a session whose overall deadline has passed: every planned
/// sequence number that never produced an outcome is closed with a
/// timed-out response, so that each dispatched probe yields exactly one
/// outcome.  Outcomes already folded stay untouched, in order, in front.
pub fn finalize_outstanding(responses: Vec<PingResponse>, planned: &Vec<u8>) -> (r: Vec<
    PingResponse,
>)
    ensures
        r@.len() >= responses@.len(),
        r@.take(responses@.len() as int) == responses@,
        covers_planned(r@, planned@, planned@.len() as int),
        forall|i: int|
            responses@.len() <= i < r@.len() ==> (#[trigger] r@[i]).status is Timeout,
        appended_are_planned(r@, planned@, responses@.len() as int),
        forall|i: int, j: int|
            responses@.len() <= i < r@.len() && 0 <= j < i ==> (#[trigger] r@[j]).seq != (
            #[trigger] r@[i]).seq,
{
    let ghost given = responses@;
    let n: usize = planned.len();
    let mut r = responses;
    let mut k: usize = 0;
    while k < n
        invariant
            k <= n,
            n == planned@.len(),
            r@.len() >= given.len(),
            r@.take(given.len() as int) == given,
            covers_planned(r@, planned@, k as int),
            forall|i: int|
                given.len() <= i < r@.len() ==> (#[trigger] r@[i]).status is Timeout,
            appended_are_planned(r@, planned@, given.len() as int),
            forall|i: int, j: int|
                given.len() <= i < r@.len() && 0 <= j < i ==> (#[trigger] r@[j]).seq != (
                #[trigger] r@[i]).seq,
        decreases n - k,
    {
        let ghost before = r@;
        let wanted: u8 = planned[k];
        let mut found: bool = false;
        let mut i: usize = 0;
        let len: usize = r.len();
        while i < len
            invariant
                i <= len,
                len == r@.len(),
                found ==> exists|j: int| 0 <= j < r@.len() && (#[trigger] r@[j]).seq == wanted,
                !found ==> forall|j: int| 0 <= j < i ==> (#[trigger] r@[j]).seq != wanted,
            decreases len - i,
        {
            if r[i].seq == wanted {
                found = true;
                proof {
                    assert(r@[i as int].seq == wanted);
                }
            }
            i = i + 1;
        }
        if !found {
            let mut missing = PingResponse::new();
            missing.seq = wanted;
            missing.status = ProbeStatus::Timeout;
            r.push(missing);
            proof {
                assert(r@[r@.len() - 1].seq == wanted);
                assert(wanted == planned@[k as int]);
                assert(r@.take(given.len() as int) =~= before.take(given.len() as int));
                assert(forall|j: int| 0 <= j < before.len() ==> r@[j] == before[j]);
                assert(forall|j: int| 0 <= j < before.len() ==> r@[j].seq != wanted);
                assert(appended_are_planned(r@, planned@, given.len() as int)) by {
                    assert forall|i: int| given.len() <= i < r@.len() implies exists|k2: int|
                        0 <= k2 < planned@.len() && (#[trigger] r@[i]).seq
                            == #[trigger] planned@[k2] by {
                        if i < r@.len() - 1 {
                            let k0 = choose|k0: int|
                                0 <= k0 < planned@.len() && (#[trigger] before[i]).seq == #[trigger] planned@[k0];
                            assert(r@[i].seq == planned@[k0]);
                        } else {
                            assert(r@[i].seq == planned@[k as int]);
                        }
                    }
                }
                assert(covers_planned(r@, planned@, k + 1)) by {
                    assert forall|j: int| 0 <= j < k + 1 implies exists|i: int|
                        0 <= i < r@.len() && (#[trigger] r@[i]).seq == #[trigger] planned@[j] by {
                        if j < k {
                            let i = choose|i: int|
                                0 <= i < before.len() && (#[trigger] before[i]).seq == planned@[j];
                            assert(r@[i].seq == planned@[j]);
                        } else {
                            assert(r@[r@.len() - 1].seq == planned@[j]);
                        }
                    }
                }
            }
        } else {
            proof {
                assert(covers_planned(r@, planned@, k + 1)) by {
                    assert forall|j: int| 0 <= j < k + 1 implies exists|i: int|
                        0 <= i < r@.len() && (#[trigger] r@[i]).seq == #[trigger] planned@[j] by {
                        if j == k {
                            let i = choose|i: int|
                                0 <= i < r@.len() && (#[trigger] r@[i]).seq == wanted;
                            assert(r@[i].seq == planned@[j]);
                        }
                    }
                }
            }
        }
        k = k + 1;
    }
    r
}

} // verus!
