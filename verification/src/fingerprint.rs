//! Fingerprint resolution: matching observed TCP/IP signals against the
//! externally stored reference corpora to guess operating systems and
//! services.
//!
//! The storage collaborator hands the corpora in as plain rows; every
//! lookup and ranking rule lives here.

use vstd::prelude::*;

use crate::text::{is_prefix_of, lemma_lex_leq_total, lemma_lex_leq_transitive, lex_leq,
    str_is_prefix_of, str_lex_leq};
use crate::seq_facts::lemma_insert_to_multiset;

verus! {

/// One row of the TCP service reference table.
#[derive(Debug, PartialEq)]
pub struct TcpService {
    pub port: u16,
    pub service_name: String,
    pub service_description: String,
    /// The service belongs to the well-known subset.
    pub wellknown_flag: bool,
    /// The service belongs to the default scan subset.
    pub default_flag: bool,
}

impl Clone for TcpService {
    fn clone(&self) -> (r: Self)
        ensures
            r == *self,
    {
        TcpService {
            port: self.port,
            service_name: self.service_name.clone(),
            service_description: self.service_description.clone(),
            wellknown_flag: self.wellknown_flag,
            default_flag: self.default_flag,
        }
    }
}

/// One row of the port tag table, e.g. tag "http" on port 8080.
#[derive(Debug, PartialEq)]
pub struct PortTag {
    pub port: u16,
    pub tag: String,
}

impl Clone for PortTag {
    fn clone(&self) -> (r: Self)
        ensures
            r == *self,
    {
        PortTag { port: self.port, tag: self.tag.clone() }
    }
}

/// One row of the TTL reference table: the OS family that ships the given
/// initial TTL.
#[derive(Debug, PartialEq)]
pub struct OsTtl {
    pub os_family: String,
    pub os_description: String,
    pub initial_ttl: u8,
}

impl Clone for OsTtl {
    fn clone(&self) -> (r: Self)
        ensures
            r == *self,
    {
        OsTtl {
            os_family: self.os_family.clone(),
            os_description: self.os_description.clone(),
            initial_ttl: self.initial_ttl,
        }
    }
}

impl OsTtl {
    pub fn new() -> (r: OsTtl)
        ensures
            r.os_family@ == Seq::<char>::empty(),
            r.os_description@ == Seq::<char>::empty(),
            r.initial_ttl == 0u8,
    {
        OsTtl { os_family: String::new(), os_description: String::new(), initial_ttl: 0 }
    }
}

/// One row of the OS fingerprint corpus.
#[derive(Debug, PartialEq)]
pub struct OsFingerprint {
    pub cpe: String,
    pub os_name: String,
    pub os_vendor: String,
    pub os_family: String,
    /// Generation label, ranked character-wise; a later generation sorts
    /// higher.
    pub os_generation: String,
    /// Device class, e.g. "general purpose".
    pub device_type: String,
    pub tcp_window_size: u16,
    /// TCP option codes in observed order, serialized as text.
    pub tcp_option_pattern: String,
}

impl Clone for OsFingerprint {
    fn clone(&self) -> (r: Self)
        ensures
            r == *self,
    {
        OsFingerprint {
            cpe: self.cpe.clone(),
            os_name: self.os_name.clone(),
            os_vendor: self.os_vendor.clone(),
            os_family: self.os_family.clone(),
            os_generation: self.os_generation.clone(),
            device_type: self.device_type.clone(),
            tcp_window_size: self.tcp_window_size,
            tcp_option_pattern: self.tcp_option_pattern.clone(),
        }
    }
}

/// An exact fingerprint hit: same window size, same option pattern.
pub open spec fn exact_match(e: OsFingerprint, w: u16, p: Seq<char>) -> bool {
    e.tcp_window_size == w && e.tcp_option_pattern@ == p
}

/// The window size sits within the fixed approximate-match tolerance band
/// of 1000 around the observed value.
pub open spec fn window_within_tolerance(ew: u16, w: u16) -> bool {
    w - 1000 <= ew <= w + 1000
}

/// An approximate fingerprint hit: the entry's option pattern is a prefix
/// of the observed pattern, its window size is within tolerance, and the
/// entry describes a general-purpose device.
pub open spec fn approx_match(e: OsFingerprint, w: u16, p: Seq<char>) -> bool {
    &&& is_prefix_of(e.tcp_option_pattern@, p)
    &&& window_within_tolerance(e.tcp_window_size, w)
    &&& e.device_type@ == "general purpose"@
}

/// The exact fingerprint hits of a corpus, in corpus order.
pub open spec fn exact_matches(s: Seq<OsFingerprint>, w: u16, p: Seq<char>) -> Seq<OsFingerprint>
    decreases s.len(),
{
    if s.len() == 0 {
        Seq::<OsFingerprint>::empty()
    } else if exact_match(s.last(), w, p) {
        exact_matches(s.drop_last(), w, p).push(s.last())
    } else {
        exact_matches(s.drop_last(), w, p)
    }
}

/// The approximate fingerprint hits of a corpus, in corpus order.
pub open spec fn approx_matches(s: Seq<OsFingerprint>, w: u16, p: Seq<char>) -> Seq<OsFingerprint>
    decreases s.len(),
{
    if s.len() == 0 {
        Seq::<OsFingerprint>::empty()
    } else if approx_match(s.last(), w, p) {
        approx_matches(s.drop_last(), w, p).push(s.last())
    } else {
        approx_matches(s.drop_last(), w, p)
    }
}

/// Candidates ranked newest generation first.
pub open spec fn sorted_by_generation_desc(s: Seq<OsFingerprint>) -> bool {
    forall|i: int, j: int|
        0 <= i < j < s.len() ==> lex_leq(
            #[trigger] s[j].os_generation@,
            #[trigger] s[i].os_generation@,
        )
}

/// Looks up the corpus rows that match the observed window size and option
/// pattern exactly.
pub fn search_os_fingerprints(
    corpus: &Vec<OsFingerprint>,
    tcp_window_size: u16,
    tcp_option_pattern: &String,
) -> (r: Vec<OsFingerprint>)
    ensures
        r@ == exact_matches(corpus@, tcp_window_size, tcp_option_pattern@),
{
    let n: usize = corpus.len();
    let mut r: Vec<OsFingerprint> = Vec::new();
    let mut i: usize = 0;
    proof {
        assert(corpus@.take(0) =~= Seq::<OsFingerprint>::empty());
    }
    while i < n
        invariant
            i <= n,
            n == corpus@.len(),
            r@ == exact_matches(corpus@.take(i as int), tcp_window_size, tcp_option_pattern@),
        decreases n - i,
    {
        proof {
            assert(corpus@.take(i + 1).drop_last() =~= corpus@.take(i as int));
            assert(corpus@.take(i + 1).last() == corpus@[i as int]);
        }
        let e = &corpus[i];
        if e.tcp_window_size == tcp_window_size && e.tcp_option_pattern == *tcp_option_pattern {
            r.push(e.clone());
        }
        i = i + 1;
    }
    proof {
        assert(corpus@.take(n as int) =~= corpus@);
    }
    r
}

/// Looks up and ranks the corpus rows that match the observed signals
/// approximately: option pattern a prefix of the observed one, window size
/// within the tolerance band, general-purpose devices only, ranked newest
/// generation first.
#[verifier::rlimit(100)]
pub fn get_approximate_fingerprints(
    corpus: &Vec<OsFingerprint>,
    tcp_window_size: u16,
    tcp_option_pattern: &String,
) -> (r: Vec<OsFingerprint>)
    ensures
        forall|i: int|
            0 <= i < r@.len() ==> approx_match(#[trigger] r@[i], tcp_window_size,
                tcp_option_pattern@),
        r@.to_multiset() == approx_matches(corpus@, tcp_window_size, tcp_option_pattern@)
            .to_multiset(),
        sorted_by_generation_desc(r@),
{
    broadcast use vstd::seq_lib::group_to_multiset_ensures;
    broadcast use vstd::multiset::group_multiset_axioms;

    let gp: String = String::from_str("general purpose");
    let n: usize = corpus.len();
    let mut picked: Vec<OsFingerprint> = Vec::new();
    let mut i: usize = 0;
    proof {
        assert(corpus@.take(0) =~= Seq::<OsFingerprint>::empty());
    }
    while i < n
        invariant
            i <= n,
            n == corpus@.len(),
            gp@ == "general purpose"@,
            picked@ == approx_matches(corpus@.take(i as int), tcp_window_size,
                tcp_option_pattern@),
        decreases n - i,
    {
        proof {
            assert(corpus@.take(i + 1).drop_last() =~= corpus@.take(i as int));
            assert(corpus@.take(i + 1).last() == corpus@[i as int]);
        }
        let e = &corpus[i];
        let in_band: bool = tcp_window_size as u32 <= e.tcp_window_size as u32 + 1000
            && e.tcp_window_size as u32 <= tcp_window_size as u32 + 1000;
        if in_band && str_is_prefix_of(e.tcp_option_pattern.as_str(), tcp_option_pattern.as_str())
            && e.device_type == gp {
            picked.push(e.clone());
        }
        i = i + 1;
    }
    proof {
        assert(corpus@.take(n as int) =~= corpus@);
    }
    let ghost all = picked@;
    proof {
        assert(forall|k: int|
            0 <= k < all.len() ==> approx_match(#[trigger] all[k], tcp_window_size,
                tcp_option_pattern@)) by {
            lemma_matches_match(corpus@, tcp_window_size, tcp_option_pattern@);
        }
    }
    // rank the survivors newest generation first
    let mut rest = picked;
    let mut out: Vec<OsFingerprint> = Vec::new();
    proof {
        assert(out@.to_multiset().add(rest@.to_multiset()) =~= rest@.to_multiset());
    }
    while rest.len() > 0
        invariant
            sorted_by_generation_desc(out@),
            out@.to_multiset().add(rest@.to_multiset()) =~= all.to_multiset(),
            forall|k: int|
                0 <= k < out@.len() ==> approx_match(#[trigger] out@[k], tcp_window_size,
                    tcp_option_pattern@),
            forall|k: int|
                0 <= k < rest@.len() ==> approx_match(#[trigger] rest@[k], tcp_window_size,
                    tcp_option_pattern@),
        decreases rest.len(),
    {
        let ghost rest0 = rest@;
        let x = rest.remove(0);
        proof {
            rest0.to_multiset_ensures();
            assert(rest0.contains(x)) by {
                assert(rest0[0] == x);
            }
            assert(rest@.to_multiset() =~= rest0.to_multiset().remove(x));
        }
        let mut p: usize = 0;
        while p < out.len() && str_lex_leq(
            x.os_generation.as_str(),
            out[p].os_generation.as_str(),
        )
            invariant
                p <= out@.len(),
                forall|k: int|
                    0 <= k < p ==> lex_leq(x.os_generation@, #[trigger] out@[k].os_generation@),
            decreases out@.len() - p,
        {
            p = p + 1;
        }
        let ghost out0 = out@;
        proof {
            if (p as int) < out0.len() {
                assert(!lex_leq(x.os_generation@, out0[p as int].os_generation@));
                lemma_lex_leq_total(x.os_generation@, out0[p as int].os_generation@);
            }
            assert forall|k: int| p <= k < out0.len() implies lex_leq(
                #[trigger] out0[k].os_generation@,
                x.os_generation@,
            ) by {
                if k > p {
                    lemma_lex_leq_transitive(
                        out0[k].os_generation@,
                        out0[p as int].os_generation@,
                        x.os_generation@,
                    );
                }
            }
            lemma_insert_to_multiset(out0, p as int, x);
            out0.insert_ensures(p as int, x);
        }
        out.insert(p, x);
        proof {
            assert(sorted_by_generation_desc(out@)) by {
                assert(forall|k: int| 0 <= k < p ==> out@[k] == out0[k]);
                assert(out@[p as int] == x);
                assert(forall|k: int| p < k < out@.len() ==> out@[k] == out0[k - 1]);
            }
            assert(forall|k: int|
                0 <= k < out@.len() ==> approx_match(#[trigger] out@[k], tcp_window_size,
                    tcp_option_pattern@)) by {
                assert(forall|k: int| 0 <= k < p ==> out@[k] == out0[k]);
                assert(out@[p as int] == x);
                assert(forall|k: int| p < k < out@.len() ==> out@[k] == out0[k - 1]);
            }
            assert(out@.to_multiset().add(rest@.to_multiset()) =~= all.to_multiset());
        }
    }
    proof {
        assert(rest@ =~= Seq::<OsFingerprint>::empty());
        assert(out@.to_multiset().add(rest@.to_multiset()) =~= out@.to_multiset());
    }
    out
}

/// Every row the approximate filter keeps satisfies the approximate-match
/// predicate.
proof fn lemma_matches_match(s: Seq<OsFingerprint>, w: u16, p: Seq<char>)
    ensures
        forall|k: int|
            0 <= k < approx_matches(s, w, p).len() ==> approx_match(
                #[trigger] approx_matches(s, w, p)[k],
                w,
                p,
            ),
        forall|k: int|
            0 <= k < exact_matches(s, w, p).len() ==> exact_match(
                #[trigger] exact_matches(s, w, p)[k],
                w,
                p,
            ),
    decreases s.len(),
{
    if s.len() > 0 {
        lemma_matches_match(s.drop_last(), w, p);
        let a = approx_matches(s, w, p);
        let a0 = approx_matches(s.drop_last(), w, p);
        assert forall|k: int| 0 <= k < a.len() implies approx_match(a[k], w, p) by {
            if approx_match(s.last(), w, p) {
                assert(a == a0.push(s.last()));
                if k < a0.len() {
                    assert(a[k] == a0[k]);
                } else {
                    assert(a[k] == s.last());
                }
            } else {
                assert(a == a0);
            }
        }
        let e = exact_matches(s, w, p);
        let e0 = exact_matches(s.drop_last(), w, p);
        assert forall|k: int| 0 <= k < e.len() implies exact_match(e[k], w, p) by {
            if exact_match(s.last(), w, p) {
                assert(e == e0.push(s.last()));
                if k < e0.len() {
                    assert(e[k] == e0[k]);
                } else {
                    assert(e[k] == s.last());
                }
            } else {
                assert(e == e0);
            }
        }
    }
}

/// Resolves OS candidates for observed signals: an exact corpus hit is
/// always preferred; only when no exact row exists does the approximate,
/// tolerance-based match run.
pub fn resolve_os(
    corpus: &Vec<OsFingerprint>,
    tcp_window_size: u16,
    tcp_option_pattern: &String,
) -> (r: Vec<OsFingerprint>)
    ensures
        exact_matches(corpus@, tcp_window_size, tcp_option_pattern@).len() > 0 ==> r@
            == exact_matches(corpus@, tcp_window_size, tcp_option_pattern@),
        exact_matches(corpus@, tcp_window_size, tcp_option_pattern@).len() == 0 ==> {
            &&& forall|i: int|
                0 <= i < r@.len() ==> approx_match(#[trigger] r@[i], tcp_window_size,
                    tcp_option_pattern@)
            &&& r@.to_multiset() == approx_matches(corpus@, tcp_window_size, tcp_option_pattern@)
                .to_multiset()
            &&& sorted_by_generation_desc(r@)
        },
{
    let exact = search_os_fingerprints(corpus, tcp_window_size, tcp_option_pattern);
    if exact.len() > 0 {
        exact
    } else {
        get_approximate_fingerprints(corpus, tcp_window_size, tcp_option_pattern)
    }
}

/// Resolves the OS family for an observed initial TTL: the last reference
/// row with exactly that TTL wins; with no hit, the empty row comes back.
pub fn get_os_family(table: &Vec<OsTtl>, initial_ttl: u8) -> (r: OsTtl)
    ensures
        (forall|i: int| 0 <= i < table@.len() ==> (#[trigger] table@[i].initial_ttl) != initial_ttl)
            ==> r.os_family@ == Seq::<char>::empty() && r.os_description@ == Seq::<char>::empty()
            && r.initial_ttl == 0u8,
        (exists|i: int| 0 <= i < table@.len() && (#[trigger] table@[i].initial_ttl) == initial_ttl)
            ==> exists|i: int|
            {
                &&& 0 <= i < table@.len()
                &&& (#[trigger] table@[i].initial_ttl) == initial_ttl
                &&& r == table@[i]
                &&& forall|j: int| i < j < table@.len() ==> table@[j].initial_ttl != initial_ttl
            },
{
    let n: usize = table.len();
    let mut r: OsTtl = OsTtl::new();
    let mut found: bool = false;
    let ghost mut hit: int = 0;
    let mut i: usize = 0;
    while i < n
        invariant
            i <= n,
            n == table@.len(),
            !found ==> r.os_family@ == Seq::<char>::empty() && r.os_description@
                == Seq::<char>::empty() && r.initial_ttl == 0u8,
            !found ==> forall|k: int|
                0 <= k < i ==> (#[trigger] table@[k].initial_ttl) != initial_ttl,
            found ==> {
                &&& 0 <= hit < i
                &&& table@[hit].initial_ttl == initial_ttl
                &&& r == table@[hit]
                &&& forall|j: int| hit < j < i ==> table@[j].initial_ttl != initial_ttl
            },
        decreases n - i,
    {
        if table[i].initial_ttl == initial_ttl {
            r = table[i].clone();
            found = true;
            proof {
                hit = i as int;
            }
        }
        i = i + 1;
    }
    r
}

/// Resolves the service label for a port: the first reference row for that
/// port wins; an unlisted port resolves to "unknown".
pub fn resolve_service(services: &Vec<TcpService>, port: u16) -> (r: String)
    ensures
        (forall|i: int| 0 <= i < services@.len() ==> (#[trigger] services@[i].port) != port) ==> r@
            == "unknown"@,
        (exists|i: int| 0 <= i < services@.len() && (#[trigger] services@[i].port) == port)
            ==> exists|i: int|
            {
                &&& 0 <= i < services@.len()
                &&& (#[trigger] services@[i].port) == port
                &&& r@ == services@[i].service_name@
                &&& forall|j: int| 0 <= j < i ==> services@[j].port != port
            },
{
    let n: usize = services.len();
    let mut i: usize = 0;
    while i < n
        invariant
            i <= n,
            n == services@.len(),
            forall|k: int| 0 <= k < i ==> (#[trigger] services@[k].port) != port,
        decreases n - i,
    {
        if services[i].port == port {
            let r = services[i].service_name.clone();
            proof {
                assert(services@[i as int].port == port);
            }
            return r;
        }
        i = i + 1;
    }
    String::from_str("unknown")
}

/// The reference rows flagged as default scan services, in table order.
pub open spec fn default_rows(s: Seq<TcpService>) -> Seq<TcpService>
    decreases s.len(),
{
    if s.len() == 0 {
        Seq::<TcpService>::empty()
    } else if s.last().default_flag {
        default_rows(s.drop_last()).push(s.last())
    } else {
        default_rows(s.drop_last())
    }
}

/// The reference rows flagged as well-known services, in table order.
pub open spec fn wellknown_rows(s: Seq<TcpService>) -> Seq<TcpService>
    decreases s.len(),
{
    if s.len() == 0 {
        Seq::<TcpService>::empty()
    } else if s.last().wellknown_flag {
        wellknown_rows(s.drop_last()).push(s.last())
    } else {
        wellknown_rows(s.drop_last())
    }
}

/// Restricts the service table to the default scan subset.
pub fn get_default_services(services: &Vec<TcpService>) -> (r: Vec<TcpService>)
    ensures
        r@ == default_rows(services@),
{
    let n: usize = services.len();
    let mut r: Vec<TcpService> = Vec::new();
    let mut i: usize = 0;
    proof {
        assert(services@.take(0) =~= Seq::<TcpService>::empty());
    }
    while i < n
        invariant
            i <= n,
            n == services@.len(),
            r@ == default_rows(services@.take(i as int)),
        decreases n - i,
    {
        proof {
            assert(services@.take(i + 1).drop_last() =~= services@.take(i as int));
            assert(services@.take(i + 1).last() == services@[i as int]);
        }
        if services[i].default_flag {
            r.push(services[i].clone());
        }
        i = i + 1;
    }
    proof {
        assert(services@.take(n as int) =~= services@);
    }
    r
}

/// Restricts the service table to the well-known subset.
pub fn get_wellknown_services(services: &Vec<TcpService>) -> (r: Vec<TcpService>)
    ensures
        r@ == wellknown_rows(services@),
{
    let n: usize = services.len();
    let mut r: Vec<TcpService> = Vec::new();
    let mut i: usize = 0;
    proof {
        assert(services@.take(0) =~= Seq::<TcpService>::empty());
    }
    while i < n
        invariant
            i <= n,
            n == services@.len(),
            r@ == wellknown_rows(services@.take(i as int)),
        decreases n - i,
    {
        proof {
            assert(services@.take(i + 1).drop_last() =~= services@.take(i as int));
            assert(services@.take(i + 1).last() == services@[i as int]);
        }
        if services[i].wellknown_flag {
            r.push(services[i].clone());
        }
        i = i + 1;
    }
    proof {
        assert(services@.take(n as int) =~= services@);
    }
    r
}

/// The ports carrying a given tag, in table order.
pub open spec fn tagged_ports(s: Seq<PortTag>, tag: Seq<char>) -> Seq<u16>
    decreases s.len(),
{
    if s.len() == 0 {
        Seq::<u16>::empty()
    } else if s.last().tag@ == tag {
        tagged_ports(s.drop_last(), tag).push(s.last().port)
    } else {
        tagged_ports(s.drop_last(), tag)
    }
}

/// Collects the ports tagged with the given label.
pub fn ports_with_tag(tags: &Vec<PortTag>, tag: &String) -> (r: Vec<u16>)
    ensures
        r@ == tagged_ports(tags@, tag@),
{
    let n: usize = tags.len();
    let mut r: Vec<u16> = Vec::new();
    let mut i: usize = 0;
    proof {
        assert(tags@.take(0) =~= Seq::<PortTag>::empty());
    }
    while i < n
        invariant
            i <= n,
            n == tags@.len(),
            r@ == tagged_ports(tags@.take(i as int), tag@),
        decreases n - i,
    {
        proof {
            assert(tags@.take(i + 1).drop_last() =~= tags@.take(i as int));
            assert(tags@.take(i + 1).last() == tags@[i as int]);
        }
        if tags[i].tag == *tag {
            r.push(tags[i].port);
        }
        i = i + 1;
    }
    proof {
        assert(tags@.take(n as int) =~= tags@);
    }
    r
}

/// The ports tagged "http" in the tag table.
pub fn get_http_ports(tags: &Vec<PortTag>) -> (r: Vec<u16>)
    ensures
        r@ == tagged_ports(tags@, "http"@),
{
    let tag: String = String::from_str("http");
    ports_with_tag(tags, &tag)
}

/// The ports tagged "https" in the tag table.
pub fn get_https_ports(tags: &Vec<PortTag>) -> (r: Vec<u16>)
    ensures
        r@ == tagged_ports(tags@, "https"@),
{
    let tag: String = String::from_str("https");
    ports_with_tag(tags, &tag)
}

/// Builds the TTL reference table from plain rows of (family, description,
/// initial TTL).
pub fn get_os_ttl(rows: &Vec<(String, String, u8)>) -> (r: Vec<OsTtl>)
    ensures
        r@.len() == rows@.len(),
        forall|i: int|
            0 <= i < rows@.len() ==> {
                &&& (#[trigger] r@[i]).os_family@ == rows@[i].0@
                &&& r@[i].os_description@ == rows@[i].1@
                &&& r@[i].initial_ttl == rows@[i].2
            },
{
    let n: usize = rows.len();
    let mut r: Vec<OsTtl> = Vec::new();
    let mut i: usize = 0;
    while i < n
        invariant
            i <= n,
            n == rows@.len(),
            r@.len() == i,
            forall|k: int|
                0 <= k < i ==> {
                    &&& (#[trigger] r@[k]).os_family@ == rows@[k].0@
                    &&& r@[k].os_description@ == rows@[k].1@
                    &&& r@[k].initial_ttl == rows@[k].2
                },
        decreases n - i,
    {
        let row = &rows[i];
        r.push(OsTtl {
            os_family: row.0.clone(),
            os_description: row.1.clone(),
            initial_ttl: row.2,
        });
        i = i + 1;
    }
    r
}

} // verus!
