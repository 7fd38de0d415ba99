//! The shapes the engine exchanges with the storage collaborator, and the
//! computations around them: session identifiers, history statistics, map
//! assembly, and the flattening of session results into plain rows.
//!
//! The storage collaborator owns the database; it hands full tables in and
//! takes finished rows back.

use vstd::prelude::*;

use crate::command::{command_id_chars, protocol_id_chars, CommandType};
use crate::host::{is_valid_hostname, valid_hostname};
use crate::model::{ip_chars, node_type_chars, IpAddress};
use crate::result::{status_chars, HostScanResult, PingResult, PortScanResult, TracerouteResult};
use crate::seq_facts::lemma_insert_to_multiset;
use crate::text::{dec_rep, is_lower_hex_char, u64_to_string};

verus! {

/// One line of the probe history.
#[derive(Debug, PartialEq)]
pub struct ProbeLog {
    pub id: u32,
    pub probe_id: String,
    pub probe_type_id: String,
    pub probe_type_name: String,
    pub probe_target_addr: String,
    pub probe_target_name: String,
    pub protocol_id: String,
    pub probe_option: String,
    pub issued_at: String,
}

impl Clone for ProbeLog {
    fn clone(&self) -> (r: Self)
        ensures
            r == *self,
    {
        ProbeLog {
            id: self.id,
            probe_id: self.probe_id.clone(),
            probe_type_id: self.probe_type_id.clone(),
            probe_type_name: self.probe_type_name.clone(),
            probe_target_addr: self.probe_target_addr.clone(),
            probe_target_name: self.probe_target_name.clone(),
            protocol_id: self.protocol_id.clone(),
            probe_option: self.probe_option.clone(),
            issued_at: self.issued_at.clone(),
        }
    }
}

/// One labelled value for a selection list.
#[derive(Debug, PartialEq)]
pub struct DataSetItem {
    pub id: String,
    pub name: String,
}

impl Clone for DataSetItem {
    fn clone(&self) -> (r: Self)
        ensures
            r == *self,
    {
        DataSetItem { id: self.id.clone(), name: self.name.clone() }
    }
}

/// How many sessions of each kind the history holds.
#[derive(Clone, Copy, Debug, PartialEq, Eq, Structural)]
pub struct ProbeStat {
    pub portscan_count: u32,
    pub hostscan_count: u32,
    pub ping_count: u32,
    pub traceroute_count: u32,
}

impl ProbeStat {
    pub fn new() -> (r: ProbeStat)
        ensures
            r.portscan_count == 0u32,
            r.hostscan_count == 0u32,
            r.ping_count == 0u32,
            r.traceroute_count == 0u32,
    {
        ProbeStat { portscan_count: 0, hostscan_count: 0, ping_count: 0, traceroute_count: 0 }
    }
}

/// Description of one saved network map.
#[derive(Debug, PartialEq)]
pub struct MapInfo {
    pub map_id: u32,
    pub map_name: String,
    pub display_order: u32,
    pub created_at: String,
}

impl Clone for MapInfo {
    fn clone(&self) -> (r: Self)
        ensures
            r == *self,
    {
        MapInfo {
            map_id: self.map_id,
            map_name: self.map_name.clone(),
            display_order: self.display_order,
            created_at: self.created_at.clone(),
        }
    }
}

impl MapInfo {
    pub fn new() -> (r: MapInfo)
        ensures
            r.map_id == 0u32,
            r.map_name@ == Seq::<char>::empty(),
            r.display_order == 0u32,
            r.created_at@ == Seq::<char>::empty(),
    {
        MapInfo { map_id: 0, map_name: String::new(), display_order: 0, created_at: String::new() }
    }
}

/// One node of a saved network map.
#[derive(Debug, PartialEq)]
pub struct MapNode {
    pub map_id: u32,
    pub node_id: String,
    pub node_name: String,
    pub ip_addr: String,
    pub host_name: String,
}

impl Clone for MapNode {
    fn clone(&self) -> (r: Self)
        ensures
            r == *self,
    {
        MapNode {
            map_id: self.map_id,
            node_id: self.node_id.clone(),
            node_name: self.node_name.clone(),
            ip_addr: self.ip_addr.clone(),
            host_name: self.host_name.clone(),
        }
    }
}

/// One edge of a saved network map.
#[derive(Debug, PartialEq)]
pub struct MapEdge {
    pub map_id: u32,
    pub edge_id: String,
    pub source_node_id: String,
    pub target_node_id: String,
    pub edge_label: String,
}

impl Clone for MapEdge {
    fn clone(&self) -> (r: Self)
        ensures
            r == *self,
    {
        MapEdge {
            map_id: self.map_id,
            edge_id: self.edge_id.clone(),
            source_node_id: self.source_node_id.clone(),
            target_node_id: self.target_node_id.clone(),
            edge_label: self.edge_label.clone(),
        }
    }
}

/// Stored position of one node in a map drawing.
#[derive(Debug, PartialEq)]
pub struct MapLayout {
    pub map_id: u32,
    pub node_id: String,
    pub x_value: i64,
    pub y_value: i64,
}

impl Clone for MapLayout {
    fn clone(&self) -> (r: Self)
        ensures
            r == *self,
    {
        MapLayout {
            map_id: self.map_id,
            node_id: self.node_id.clone(),
            x_value: self.x_value,
            y_value: self.y_value,
        }
    }
}

/// One saved network map, assembled from its tables.
#[derive(Debug, PartialEq)]
pub struct MapData {
    pub map_info: MapInfo,
    pub nodes: Vec<MapNode>,
    pub edges: Vec<MapEdge>,
    pub layouts: Vec<MapLayout>,
}

impl MapData {
    pub fn new() -> (r: MapData)
        ensures
            r.map_info.map_id == 0u32,
            r.map_info.map_name@ == Seq::<char>::empty(),
            r.map_info.display_order == 0u32,
            r.map_info.created_at@ == Seq::<char>::empty(),
            r.nodes@ == Seq::<MapNode>::empty(),
            r.edges@ == Seq::<MapEdge>::empty(),
            r.layouts@ == Seq::<MapLayout>::empty(),
    {
        MapData {
            map_info: MapInfo::new(),
            nodes: Vec::new(),
            edges: Vec::new(),
            layouts: Vec::new(),
        }
    }
}

/// The map nodes belonging to one map, in table order.
pub open spec fn nodes_of(s: Seq<MapNode>, map_id: u32) -> Seq<MapNode>
    decreases s.len(),
{
    if s.len() == 0 {
        Seq::<MapNode>::empty()
    } else if s.last().map_id == map_id {
        nodes_of(s.drop_last(), map_id).push(s.last())
    } else {
        nodes_of(s.drop_last(), map_id)
    }
}

/// The map edges belonging to one map, in table order.
pub open spec fn edges_of(s: Seq<MapEdge>, map_id: u32) -> Seq<MapEdge>
    decreases s.len(),
{
    if s.len() == 0 {
        Seq::<MapEdge>::empty()
    } else if s.last().map_id == map_id {
        edges_of(s.drop_last(), map_id).push(s.last())
    } else {
        edges_of(s.drop_last(), map_id)
    }
}

/// The layout rows belonging to one map, in table order.
pub open spec fn layouts_of(s: Seq<MapLayout>, map_id: u32) -> Seq<MapLayout>
    decreases s.len(),
{
    if s.len() == 0 {
        Seq::<MapLayout>::empty()
    } else if s.last().map_id == map_id {
        layouts_of(s.drop_last(), map_id).push(s.last())
    } else {
        layouts_of(s.drop_last(), map_id)
    }
}

/// Assembles one saved map from the full tables: the first info row with
/// the given identifier, and every node, edge and layout row of that map.
/// An unknown identifier yields the empty map.
pub fn get_map_data(
    map_id: u32,
    infos: &Vec<MapInfo>,
    nodes: &Vec<MapNode>,
    edges: &Vec<MapEdge>,
    layouts: &Vec<MapLayout>,
) -> (r: MapData)
    ensures
        (forall|i: int| 0 <= i < infos@.len() ==> (#[trigger] infos@[i].map_id) != map_id) ==> {
            &&& r.map_info.map_id == 0u32
            &&& r.map_info.map_name@ == Seq::<char>::empty()
            &&& r.nodes@ == Seq::<MapNode>::empty()
            &&& r.edges@ == Seq::<MapEdge>::empty()
            &&& r.layouts@ == Seq::<MapLayout>::empty()
        },
        (exists|i: int| 0 <= i < infos@.len() && (#[trigger] infos@[i].map_id) == map_id) ==> {
            &&& exists|i: int|
                {
                    &&& 0 <= i < infos@.len()
                    &&& (#[trigger] infos@[i].map_id) == map_id
                    &&& r.map_info == infos@[i]
                    &&& forall|j: int| 0 <= j < i ==> infos@[j].map_id != map_id
                }
            &&& r.nodes@ == nodes_of(nodes@, map_id)
            &&& r.edges@ == edges_of(edges@, map_id)
            &&& r.layouts@ == layouts_of(layouts@, map_id)
        },
{
    let n: usize = infos.len();
    let mut i: usize = 0;
    while i < n
        invariant
            i <= n,
            n == infos@.len(),
            forall|k: int| 0 <= k < i ==> (#[trigger] infos@[k].map_id) != map_id,
        decreases n - i,
    {
        if infos[i].map_id == map_id {
            let info = infos[i].clone();
            proof {
                assert(infos@[i as int].map_id == map_id);
            }
            let map_nodes = keep_map_nodes(nodes, map_id);
            let map_edges = keep_map_edges(edges, map_id);
            let map_layouts = keep_map_layouts(layouts, map_id);
            return MapData { map_info: info, nodes: map_nodes, edges: map_edges, layouts: map_layouts };
        }
        i = i + 1;
    }
    MapData::new()
}

/// Restricts the node table to one map.
fn keep_map_nodes(nodes: &Vec<MapNode>, map_id: u32) -> (r: Vec<MapNode>)
    ensures
        r@ == nodes_of(nodes@, map_id),
{
    let n: usize = nodes.len();
    let mut r: Vec<MapNode> = Vec::new();
    let mut i: usize = 0;
    proof {
        assert(nodes@.take(0) =~= Seq::<MapNode>::empty());
    }
    while i < n
        invariant
            i <= n,
            n == nodes@.len(),
            r@ == nodes_of(nodes@.take(i as int), map_id),
        decreases n - i,
    {
        proof {
            assert(nodes@.take(i + 1).drop_last() =~= nodes@.take(i as int));
            assert(nodes@.take(i + 1).last() == nodes@[i as int]);
        }
        if nodes[i].map_id == map_id {
            r.push(nodes[i].clone());
        }
        i = i + 1;
    }
    proof {
        assert(nodes@.take(n as int) =~= nodes@);
    }
    r
}

/// Restricts the edge table to one map.
fn keep_map_edges(edges: &Vec<MapEdge>, map_id: u32) -> (r: Vec<MapEdge>)
    ensures
        r@ == edges_of(edges@, map_id),
{
    let n: usize = edges.len();
    let mut r: Vec<MapEdge> = Vec::new();
    let mut i: usize = 0;
    proof {
        assert(edges@.take(0) =~= Seq::<MapEdge>::empty());
    }
    while i < n
        invariant
            i <= n,
            n == edges@.len(),
            r@ == edges_of(edges@.take(i as int), map_id),
        decreases n - i,
    {
        proof {
            assert(edges@.take(i + 1).drop_last() =~= edges@.take(i as int));
            assert(edges@.take(i + 1).last() == edges@[i as int]);
        }
        if edges[i].map_id == map_id {
            r.push(edges[i].clone());
        }
        i = i + 1;
    }
    proof {
        assert(edges@.take(n as int) =~= edges@);
    }
    r
}

/// Restricts the layout table to one map.
fn keep_map_layouts(layouts: &Vec<MapLayout>, map_id: u32) -> (r: Vec<MapLayout>)
    ensures
        r@ == layouts_of(layouts@, map_id),
{
    let n: usize = layouts.len();
    let mut r: Vec<MapLayout> = Vec::new();
    let mut i: usize = 0;
    proof {
        assert(layouts@.take(0) =~= Seq::<MapLayout>::empty());
    }
    while i < n
        invariant
            i <= n,
            n == layouts@.len(),
            r@ == layouts_of(layouts@.take(i as int), map_id),
        decreases n - i,
    {
        proof {
            assert(layouts@.take(i + 1).drop_last() =~= layouts@.take(i as int));
            assert(layouts@.take(i + 1).last() == layouts@[i as int]);
        }
        if layouts[i].map_id == map_id {
            r.push(layouts[i].clone());
        }
        i = i + 1;
    }
    proof {
        assert(layouts@.take(n as int) =~= layouts@);
    }
    r
}

/// History lines ordered newest first by their running identifier.
pub open spec fn sorted_by_id_desc(s: Seq<ProbeLog>) -> bool {
    forall|i: int, j: int| 0 <= i < j < s.len() ==> (#[trigger] s[i].id) >= (#[trigger] s[j].id)
}

/// The ten newest history lines, by running identifier, newest first.
///
/// Every returned line comes from the given history; any line left out is
/// no newer than the last returned one.
pub fn get_top_probe_hist(logs: Vec<ProbeLog>) -> (r: Vec<ProbeLog>)
    ensures
        sorted_by_id_desc(r@),
        logs@.len() <= 10 ==> r@.len() == logs@.len() && r@.to_multiset() == logs@.to_multiset(),
        logs@.len() > 10 ==> r@.len() == 10,
        forall|x: ProbeLog| #[trigger] r@.to_multiset().count(x) <= logs@.to_multiset().count(x),
        r@.len() > 0 ==> forall|x: ProbeLog|
            logs@.to_multiset().count(x) > #[trigger] r@.to_multiset().count(x) ==> x.id <= r@[
                r@.len() - 1
            ].id,
{
    broadcast use vstd::seq_lib::group_to_multiset_ensures;
    broadcast use vstd::multiset::group_multiset_axioms;

    let ghost orig = logs@;
    let mut rest = logs;
    let mut out: Vec<ProbeLog> = Vec::new();
    proof {
        assert(out@.to_multiset().add(rest@.to_multiset()) =~= rest@.to_multiset());
    }
    while rest.len() > 0
        invariant
            sorted_by_id_desc(out@),
            out@.to_multiset().add(rest@.to_multiset()) =~= orig.to_multiset(),
            out@.len() + rest@.len() == orig.len(),
        decreases rest.len(),
    {
        let ghost rest0 = rest@;
        let x = rest.remove(0);
        proof {
            rest0.to_multiset_ensures();
            assert(rest0.contains(x)) by {
                assert(rest0[0] == x);
            }
            assert(rest@.to_multiset() =~= rest0.to_multiset().remove(x));
        }
        let mut p: usize = 0;
        while p < out.len() && out[p].id >= x.id
            invariant
                p <= out@.len(),
                forall|k: int| 0 <= k < p ==> (#[trigger] out@[k].id) >= x.id,
            decreases out@.len() - p,
        {
            p = p + 1;
        }
        let ghost out0 = out@;
        proof {
            lemma_insert_to_multiset(out0, p as int, x);
            out0.insert_ensures(p as int, x);
        }
        out.insert(p, x);
        proof {
            assert(sorted_by_id_desc(out@)) by {
                assert(forall|k: int| 0 <= k < p ==> out@[k] == out0[k]);
                assert(out@[p as int] == x);
                assert(forall|k: int| p < k < out@.len() ==> out@[k] == out0[k - 1]);
            }
            assert(out@.to_multiset().add(rest@.to_multiset()) =~= orig.to_multiset());
        }
    }
    proof {
        assert(rest@ =~= Seq::<ProbeLog>::empty());
        assert(out@.to_multiset().add(rest@.to_multiset()) =~= out@.to_multiset());
        assert(out@.to_multiset() =~= orig.to_multiset());
    }
    if out.len() > 10 {
        let ghost whole = out@;
        let mut r = out;
        r.truncate(10);
        proof {
            let kept = whole.subrange(0, 10);
            let dropped = whole.subrange(10, whole.len() as int);
            assert(whole =~= kept + dropped);
            vstd::seq_lib::lemma_multiset_commutative(kept, dropped);
            assert(r@ == kept);
            assert forall|x: ProbeLog| #[trigger] r@.to_multiset().count(x)
                <= logs@.to_multiset().count(x) by {
                assert(whole.to_multiset().count(x) == kept.to_multiset().count(x)
                    + dropped.to_multiset().count(x));
            }
            assert forall|x: ProbeLog|
                logs@.to_multiset().count(x) > #[trigger] r@.to_multiset().count(x) implies x.id
                <= r@[r@.len() - 1].id by {
                assert(whole.to_multiset().count(x) == kept.to_multiset().count(x)
                    + dropped.to_multiset().count(x));
                assert(dropped.to_multiset().count(x) > 0);
                dropped.to_multiset_ensures();
                assert(dropped.contains(x));
                let k = choose|k: int| 0 <= k < dropped.len() && dropped[k] == x;
                assert(whole[10 + k] == x);
                assert(whole[9].id >= whole[10 + k].id);
                assert(r@[9] == whole[9]);
            }
        }
        r
    } else {
        out
    }
}

/// How many history lines carry a given probe-type identifier.
pub open spec fn count_type(s: Seq<ProbeLog>, id: Seq<char>) -> int
    decreases s.len(),
{
    if s.len() == 0 {
        0
    } else {
        count_type(s.drop_last(), id) + if s.last().probe_type_id@ == id {
            1int
        } else {
            0int
        }
    }
}

/// Counts the sessions of each kind in the history.
pub fn get_probe_stat(logs: &Vec<ProbeLog>) -> (r: ProbeStat)
    requires
        logs@.len() <= u32::MAX,
    ensures
        r.portscan_count == count_type(logs@, command_id_chars(CommandType::PortScan)),
        r.hostscan_count == count_type(logs@, command_id_chars(CommandType::HostScan)),
        r.ping_count == count_type(logs@, command_id_chars(CommandType::Ping)),
        r.traceroute_count == count_type(logs@, command_id_chars(CommandType::Traceroute)),
{
    let portscan_id: String = CommandType::PortScan.id();
    let hostscan_id: String = CommandType::HostScan.id();
    let ping_id: String = CommandType::Ping.id();
    let traceroute_id: String = CommandType::Traceroute.id();
    let n: usize = logs.len();
    let mut pc: u32 = 0;
    let mut hc: u32 = 0;
    let mut gc: u32 = 0;
    let mut tc: u32 = 0;
    let mut i: usize = 0;
    proof {
        assert(logs@.take(0) =~= Seq::<ProbeLog>::empty());
    }
    while i < n
        invariant
            i <= n,
            n == logs@.len(),
            n <= u32::MAX,
            portscan_id@ == command_id_chars(CommandType::PortScan),
            hostscan_id@ == command_id_chars(CommandType::HostScan),
            ping_id@ == command_id_chars(CommandType::Ping),
            traceroute_id@ == command_id_chars(CommandType::Traceroute),
            pc == count_type(logs@.take(i as int), portscan_id@),
            hc == count_type(logs@.take(i as int), hostscan_id@),
            gc == count_type(logs@.take(i as int), ping_id@),
            tc == count_type(logs@.take(i as int), traceroute_id@),
            pc <= i && hc <= i && gc <= i && tc <= i,
        decreases n - i,
    {
        proof {
            assert(logs@.take(i + 1).drop_last() =~= logs@.take(i as int));
            assert(logs@.take(i + 1).last() == logs@[i as int]);
        }
        let line = &logs[i];
        if line.probe_type_id == portscan_id {
            pc = pc + 1;
        }
        if line.probe_type_id == hostscan_id {
            hc = hc + 1;
        }
        if line.probe_type_id == ping_id {
            gc = gc + 1;
        }
        if line.probe_type_id == traceroute_id {
            tc = tc + 1;
        }
        i = i + 1;
    }
    proof {
        assert(logs@.take(n as int) =~= logs@);
    }
    ProbeStat { portscan_count: pc, hostscan_count: hc, ping_count: gc, traceroute_count: tc }
}

/// Relies on uuid::Uuid::new_v4 and uuid's Display implementation, which
/// renders the hyphenated form: 36 characters, a '-' at positions 8, 13,
/// 18 and 23, and a lowercase hexadecimal digit everywhere else.
#[verifier::external_body]
fn fresh_uuid_text() -> (r: String)
    ensures
        r@.len() == 36,
        forall|i: int|
            #![trigger r@[i]]
            0 <= i < 36 ==> if i == 8 || i == 13 || i == 18 || i == 23 {
                r@[i] == '-'
            } else {
                is_lower_hex_char(r@[i])
            },
{
    uuid::Uuid::new_v4().to_string()
}

/// Draws a fresh opaque session identifier: 32 lowercase hexadecimal
/// digits, the hyphen-stripped text of a random unique token.
pub fn get_probe_id() -> (r: String)
    ensures
        r@.len() == 32,
        forall|i: int| 0 <= i < 32 ==> is_lower_hex_char(#[trigger] r@[i]),
{
    let s: String = fresh_uuid_text();
    proof {
        assert forall|i: int| 0 <= i < s@.len() implies '\0' <= #[trigger] s@[i] <= '\u{7f}' by {
            assert(s@[i] == '-' || is_lower_hex_char(s@[i]));
        }
        assert(vstd::utf8::is_ascii_chars(s@));
    }
    let t: &str = s.as_str();
    let a: &str = t.substring_ascii(0, 8);
    let b: &str = t.substring_ascii(9, 13);
    let c: &str = t.substring_ascii(14, 18);
    let d: &str = t.substring_ascii(19, 23);
    let e: &str = t.substring_ascii(24, 36);
    let mut r: String = String::from_str(a);
    r.append(b);
    r.append(c);
    r.append(d);
    r.append(e);
    proof {
        assert(r@ =~= s@.subrange(0, 8) + s@.subrange(9, 13) + s@.subrange(14, 18) + s@.subrange(
            19,
            23,
        ) + s@.subrange(24, 36));
        assert(r@.len() == 32);
        assert forall|i: int| 0 <= i < 32 implies is_lower_hex_char(#[trigger] r@[i]) by {
            if i < 8 {
                assert(r@[i] == s@[i]);
            } else if i < 12 {
                assert(r@[i] == s@[i + 1]);
            } else if i < 16 {
                assert(r@[i] == s@[i + 2]);
            } else if i < 20 {
                assert(r@[i] == s@[i + 3]);
            } else {
                assert(r@[i] == s@[i + 4]);
            }
        }
    }
    r
}

/// The query filter a history search uses for its target column: the
/// validated host name itself, or the match-all wildcard.
pub fn probe_target_filter(target_host: &String) -> (r: String)
    ensures
        valid_hostname(target_host@) ==> r@ == target_host@,
        !valid_hostname(target_host@) ==> r@ == "%"@,
{
    if is_valid_hostname(target_host.as_str()) {
        target_host.clone()
    } else {
        String::from_str("%")
    }
}

/// Comma-separated numbered placeholders, `count` of them starting at
/// `start`: e.g. start 5, count 3 gives `"?5, ?6, ?7"`.
pub open spec fn placeholders_chars(start: nat, count: nat) -> Seq<char>
    decreases count,
{
    if count == 0 {
        Seq::<char>::empty()
    } else if count == 1 {
        seq!['?'] + dec_rep(start)
    } else {
        placeholders_chars(start, (count - 1) as nat) + seq![','] + seq![' '] + seq!['?']
            + dec_rep((start + count - 1) as nat)
    }
}

/// Builds the numbered placeholder list a history query splices into its
/// statement for a variable number of bound values.
pub fn placeholder_list(start: u64, count: u64) -> (r: String)
    requires
        start + count <= u64::MAX,
    ensures
        r@ == placeholders_chars(start as nat, count as nat),
{
    proof {
        reveal_strlit("?");
        reveal_strlit(", ");
    }
    let mut r: String = String::new();
    let mut k: u64 = 0;
    while k < count
        invariant
            k <= count,
            start + count <= u64::MAX,
            r@ == placeholders_chars(start as nat, k as nat),
            "?"@ =~= seq!['?'],
            ", "@ =~= seq![','] + seq![' '],
        decreases count - k,
    {
        if k == 0 {
            r.append("?");
            let num = u64_to_string(start);
            r.append(num.as_str());
            proof {
                assert(r@ =~= placeholders_chars(start as nat, 1));
            }
        } else {
            let ghost before = r@;
            r.append(", ");
            r.append("?");
            let num = u64_to_string(start + k);
            r.append(num.as_str());
            proof {
                assert(r@ =~= before + seq![','] + seq![' '] + seq!['?'] + dec_rep(
                    (start + k) as nat,
                ));
                assert(placeholders_chars(start as nat, (k + 1) as nat) == placeholders_chars(
                    start as nat,
                    k as nat,
                ) + seq![','] + seq![' '] + seq!['?'] + dec_rep((start + k) as nat));
            }
        }
        k = k + 1;
    }
    r
}

/// One flattened session summary row, handed to the storage collaborator.
/// The min/avg/max columns are used by ping sessions and zero elsewhere;
/// all times are milliseconds.
#[derive(Debug, PartialEq)]
pub struct ProbeResultRow {
    pub probe_id: String,
    pub probe_type_id: String,
    pub probe_target_addr: String,
    pub probe_target_name: String,
    pub protocol_id: String,
    pub probe_option: String,
    pub probe_time: u64,
    pub min_value: u64,
    pub avg_value: u64,
    pub max_value: u64,
}

/// One per-probe row of a persisted ping session; times in milliseconds.
#[derive(Debug, PartialEq)]
pub struct PingResultRow {
    pub probe_id: String,
    pub seq: u8,
    pub ip_addr: String,
    pub host_name: String,
    pub port_no: u16,
    pub status: String,
    pub ttl: u8,
    pub hop: u8,
    pub rtt: u64,
}

/// One per-host row of a persisted scan session.
#[derive(Debug, PartialEq)]
pub struct HostScanRow {
    pub probe_id: String,
    pub ip_addr: String,
    pub host_name: String,
    pub port: u16,
    pub protocol_id: String,
    pub mac_addr: String,
    pub vendor: String,
    pub os_name: String,
    pub cpe: String,
}

/// One per-port row of a persisted port-scan session.
#[derive(Debug, PartialEq)]
pub struct PortScanRow {
    pub probe_id: String,
    pub socket_addr: String,
    pub ip_addr: String,
    pub host_name: String,
    pub port: u16,
    pub port_status: String,
    pub protocol_id: String,
    pub service_id: String,
    pub service_version: String,
}

/// One per-hop row of a persisted traceroute session.
#[derive(Debug, PartialEq)]
pub struct TracerouteRow {
    pub probe_id: String,
    pub seq: u8,
    pub ip_addr: String,
    pub host_name: String,
    pub ttl: u8,
    pub hop: u8,
    pub rtt: u64,
    pub node_type: String,
}

/// Textual socket address, e.g. `"127.0.0.1:80"`.
pub open spec fn socket_addr_chars(ip: IpAddress, port: u16) -> Seq<char> {
    ip_chars(ip) + seq![':'] + dec_rep(port as nat)
}

/// Renders a socket address as text.
fn socket_addr_text(ip: &IpAddress, port: u16) -> (r: String)
    ensures
        r@ == socket_addr_chars(*ip, port),
{
    proof {
        reveal_strlit(":");
    }
    let mut r: String = ip.to_text();
    r.append(":");
    r.append(u64_to_string(port as u64).as_str());
    proof {
        assert(r@ =~= socket_addr_chars(*ip, port));
    }
    r
}

/// Flattens a finished ping session into its summary row and one row per
/// probe.  The first response names the session's target; round trip
/// times, microseconds in the session, become milliseconds in the rows.
pub fn ping_result_rows(result: &PingResult, option_value: &String) -> (r: (
    ProbeResultRow,
    Vec<PingResultRow>,
))
    requires
        result.stat.responses@.len() > 0,
    ensures
        r.0.probe_id@ == result.probe_id@,
        r.0.probe_type_id@ == command_id_chars(CommandType::Ping),
        r.0.probe_target_addr@ == ip_chars(result.stat.responses@[0].ip_addr),
        r.0.probe_target_name@ == result.stat.responses@[0].host_name@,
        r.0.protocol_id@ == protocol_id_chars(result.protocol),
        r.0.probe_option@ == option_value@,
        r.0.probe_time == result.stat.probe_time / 1000,
        r.0.min_value == result.stat.min / 1000,
        r.0.avg_value == result.stat.avg / 1000,
        r.0.max_value == result.stat.max / 1000,
        r.1@.len() == result.stat.responses@.len(),
        forall|i: int|
            0 <= i < r.1@.len() ==> {
                &&& (#[trigger] r.1@[i]).probe_id@ == result.probe_id@
                &&& r.1@[i].seq == result.stat.responses@[i].seq
                &&& r.1@[i].ip_addr@ == ip_chars(result.stat.responses@[i].ip_addr)
                &&& r.1@[i].host_name@ == result.stat.responses@[i].host_name@
                &&& r.1@[i].port_no == (match result.stat.responses@[i].port_number {
                    Some(p) => p,
                    None => 0u16,
                })
                &&& r.1@[i].status@ == status_chars(result.stat.responses@[i].status)
                &&& r.1@[i].ttl == result.stat.responses@[i].ttl
                &&& r.1@[i].hop == result.stat.responses@[i].hop
                &&& r.1@[i].rtt == result.stat.responses@[i].rtt / 1000
            },
{
    let first = &result.stat.responses[0];
    let summary = ProbeResultRow {
        probe_id: result.probe_id.clone(),
        probe_type_id: CommandType::Ping.id(),
        probe_target_addr: first.ip_addr.to_text(),
        probe_target_name: first.host_name.clone(),
        protocol_id: result.protocol.id(),
        probe_option: option_value.clone(),
        probe_time: result.stat.probe_time / 1000,
        min_value: result.stat.min / 1000,
        avg_value: result.stat.avg / 1000,
        max_value: result.stat.max / 1000,
    };
    let n: usize = result.stat.responses.len();
    let mut rows: Vec<PingResultRow> = Vec::new();
    let mut i: usize = 0;
    while i < n
        invariant
            i <= n,
            n == result.stat.responses@.len(),
            rows@.len() == i,
            forall|k: int|
                0 <= k < i ==> {
                    &&& (#[trigger] rows@[k]).probe_id@ == result.probe_id@
                    &&& rows@[k].seq == result.stat.responses@[k].seq
                    &&& rows@[k].ip_addr@ == ip_chars(result.stat.responses@[k].ip_addr)
                    &&& rows@[k].host_name@ == result.stat.responses@[k].host_name@
                    &&& rows@[k].port_no == (match result.stat.responses@[k].port_number {
                        Some(p) => p,
                        None => 0u16,
                    })
                    &&& rows@[k].status@ == status_chars(result.stat.responses@[k].status)
                    &&& rows@[k].ttl == result.stat.responses@[k].ttl
                    &&& rows@[k].hop == result.stat.responses@[k].hop
                    &&& rows@[k].rtt == result.stat.responses@[k].rtt / 1000
                },
        decreases n - i,
    {
        let resp = &result.stat.responses[i];
        let port_no: u16 = match resp.port_number {
            Some(p) => p,
            None => 0,
        };
        rows.push(PingResultRow {
            probe_id: result.probe_id.clone(),
            seq: resp.seq,
            ip_addr: resp.ip_addr.to_text(),
            host_name: resp.host_name.clone(),
            port_no,
            status: resp.status.name(),
            ttl: resp.ttl,
            hop: resp.hop,
            rtt: resp.rtt / 1000,
        });
        i = i + 1;
    }
    (summary, rows)
}

/// Flattens a finished port-scan session into its summary row, the probed
/// host's row, and one row per discovered port of that host.
pub fn port_scan_rows(result: &PortScanResult, option_value: &String) -> (r: (
    ProbeResultRow,
    HostScanRow,
    Vec<PortScanRow>,
))
    requires
        result.nodes@.len() > 0,
        result.nodes@[0].ports@.len() > 0,
    ensures
        r.0.probe_id@ == result.probe_id@,
        r.0.probe_type_id@ == command_id_chars(CommandType::PortScan),
        r.0.probe_target_addr@ == ip_chars(result.nodes@[0].ip_addr),
        r.0.probe_target_name@ == result.nodes@[0].host_name@,
        r.0.protocol_id@ == protocol_id_chars(result.protocol),
        r.0.probe_option@ == option_value@,
        r.0.probe_time == result.elapsed_time,
        r.0.min_value == 0u64 && r.0.avg_value == 0u64 && r.0.max_value == 0u64,
        r.1.probe_id@ == result.probe_id@,
        r.1.ip_addr@ == ip_chars(result.nodes@[0].ip_addr),
        r.1.host_name@ == result.nodes@[0].host_name@,
        r.1.port == result.nodes@[0].ports@[0].port_number,
        r.1.protocol_id@ == protocol_id_chars(result.protocol),
        r.1.mac_addr@ == result.nodes@[0].mac_addr@,
        r.1.vendor@ == result.nodes@[0].vendor_info@,
        r.1.os_name@ == result.nodes@[0].os_name@,
        r.1.cpe@ == result.nodes@[0].cpe@,
        r.2@.len() == result.nodes@[0].ports@.len(),
        forall|i: int|
            0 <= i < r.2@.len() ==> {
                &&& (#[trigger] r.2@[i]).probe_id@ == result.probe_id@
                &&& r.2@[i].socket_addr@ == socket_addr_chars(result.nodes@[0].ip_addr,
                    result.nodes@[0].ports@[i].port_number)
                &&& r.2@[i].ip_addr@ == ip_chars(result.nodes@[0].ip_addr)
                &&& r.2@[i].host_name@ == result.nodes@[0].host_name@
                &&& r.2@[i].port == result.nodes@[0].ports@[i].port_number
                &&& r.2@[i].port_status@ == result.nodes@[0].ports@[i].port_status@
                &&& r.2@[i].protocol_id@ == protocol_id_chars(result.protocol)
                &&& r.2@[i].service_id@ == result.nodes@[0].ports@[i].service_name@
                &&& r.2@[i].service_version@ == result.nodes@[0].ports@[i].service_version@
            },
{
    let node = &result.nodes[0];
    let summary = ProbeResultRow {
        probe_id: result.probe_id.clone(),
        probe_type_id: CommandType::PortScan.id(),
        probe_target_addr: node.ip_addr.to_text(),
        probe_target_name: node.host_name.clone(),
        protocol_id: result.protocol.id(),
        probe_option: option_value.clone(),
        probe_time: result.elapsed_time,
        min_value: 0,
        avg_value: 0,
        max_value: 0,
    };
    let host_row = HostScanRow {
        probe_id: result.probe_id.clone(),
        ip_addr: node.ip_addr.to_text(),
        host_name: node.host_name.clone(),
        port: node.ports[0].port_number,
        protocol_id: result.protocol.id(),
        mac_addr: node.mac_addr.clone(),
        vendor: node.vendor_info.clone(),
        os_name: node.os_name.clone(),
        cpe: node.cpe.clone(),
    };
    let n: usize = node.ports.len();
    let mut rows: Vec<PortScanRow> = Vec::new();
    let mut i: usize = 0;
    while i < n
        invariant
            i <= n,
            result.nodes@.len() > 0,
            node == result.nodes@[0],
            n == node.ports@.len(),
            rows@.len() == i,
            forall|k: int|
                0 <= k < i ==> {
                    &&& (#[trigger] rows@[k]).probe_id@ == result.probe_id@
                    &&& rows@[k].socket_addr@ == socket_addr_chars(result.nodes@[0].ip_addr,
                        result.nodes@[0].ports@[k].port_number)
                    &&& rows@[k].ip_addr@ == ip_chars(result.nodes@[0].ip_addr)
                    &&& rows@[k].host_name@ == result.nodes@[0].host_name@
                    &&& rows@[k].port == result.nodes@[0].ports@[k].port_number
                    &&& rows@[k].port_status@ == result.nodes@[0].ports@[k].port_status@
                    &&& rows@[k].protocol_id@ == protocol_id_chars(result.protocol)
                    &&& rows@[k].service_id@ == result.nodes@[0].ports@[k].service_name@
                    &&& rows@[k].service_version@ == result.nodes@[0].ports@[k].service_version@
                },
        decreases n - i,
    {
        let port = &node.ports[i];
        rows.push(PortScanRow {
            probe_id: result.probe_id.clone(),
            socket_addr: socket_addr_text(&node.ip_addr, port.port_number),
            ip_addr: node.ip_addr.to_text(),
            host_name: node.host_name.clone(),
            port: port.port_number,
            port_status: port.port_status.clone(),
            protocol_id: result.protocol.id(),
            service_id: port.service_name.clone(),
            service_version: port.service_version.clone(),
        });
        i = i + 1;
    }
    (summary, host_row, rows)
}

/// Flattens a finished host-scan session into its summary row and one row
/// per live host found.  A found host's row carries its first discovered
/// port, or zero where none was seen.
pub fn host_scan_rows(result: &HostScanResult, option_value: &String) -> (r: (
    ProbeResultRow,
    Vec<HostScanRow>,
))
    ensures
        r.0.probe_id@ == result.probe_id@,
        r.0.probe_type_id@ == command_id_chars(CommandType::HostScan),
        r.0.probe_target_addr@ == Seq::<char>::empty(),
        r.0.probe_target_name@ == Seq::<char>::empty(),
        r.0.protocol_id@ == protocol_id_chars(result.protocol),
        r.0.probe_option@ == option_value@,
        r.0.probe_time == result.elapsed_time,
        r.0.min_value == 0u64 && r.0.avg_value == 0u64 && r.0.max_value == 0u64,
        r.1@.len() == result.nodes@.len(),
        forall|i: int|
            0 <= i < r.1@.len() ==> {
                &&& (#[trigger] r.1@[i]).probe_id@ == result.probe_id@
                &&& r.1@[i].ip_addr@ == ip_chars(result.nodes@[i].ip_addr)
                &&& r.1@[i].host_name@ == result.nodes@[i].host_name@
                &&& r.1@[i].port == (if result.nodes@[i].ports@.len() > 0 {
                    result.nodes@[i].ports@[0].port_number
                } else {
                    0u16
                })
                &&& r.1@[i].protocol_id@ == protocol_id_chars(result.protocol)
                &&& r.1@[i].mac_addr@ == result.nodes@[i].mac_addr@
                &&& r.1@[i].vendor@ == result.nodes@[i].vendor_info@
                &&& r.1@[i].os_name@ == result.nodes@[i].os_name@
                &&& r.1@[i].cpe@ == result.nodes@[i].cpe@
            },
{
    let summary = ProbeResultRow {
        probe_id: result.probe_id.clone(),
        probe_type_id: CommandType::HostScan.id(),
        probe_target_addr: String::new(),
        probe_target_name: String::new(),
        protocol_id: result.protocol.id(),
        probe_option: option_value.clone(),
        probe_time: result.elapsed_time,
        min_value: 0,
        avg_value: 0,
        max_value: 0,
    };
    let n: usize = result.nodes.len();
    let mut rows: Vec<HostScanRow> = Vec::new();
    let mut i: usize = 0;
    while i < n
        invariant
            i <= n,
            n == result.nodes@.len(),
            rows@.len() == i,
            forall|k: int|
                0 <= k < i ==> {
                    &&& (#[trigger] rows@[k]).probe_id@ == result.probe_id@
                    &&& rows@[k].ip_addr@ == ip_chars(result.nodes@[k].ip_addr)
                    &&& rows@[k].host_name@ == result.nodes@[k].host_name@
                    &&& rows@[k].port == (if result.nodes@[k].ports@.len() > 0 {
                        result.nodes@[k].ports@[0].port_number
                    } else {
                        0u16
                    })
                    &&& rows@[k].protocol_id@ == protocol_id_chars(result.protocol)
                    &&& rows@[k].mac_addr@ == result.nodes@[k].mac_addr@
                    &&& rows@[k].vendor@ == result.nodes@[k].vendor_info@
                    &&& rows@[k].os_name@ == result.nodes@[k].os_name@
                    &&& rows@[k].cpe@ == result.nodes@[k].cpe@
                },
        decreases n - i,
    {
        let node = &result.nodes[i];
        let port: u16 = if node.ports.len() > 0 {
            node.ports[0].port_number
        } else {
            0
        };
        rows.push(HostScanRow {
            probe_id: result.probe_id.clone(),
            ip_addr: node.ip_addr.to_text(),
            host_name: node.host_name.clone(),
            port,
            protocol_id: result.protocol.id(),
            mac_addr: node.mac_addr.clone(),
            vendor: node.vendor_info.clone(),
            os_name: node.os_name.clone(),
            cpe: node.cpe.clone(),
        });
        i = i + 1;
    }
    (summary, rows)
}

/// Flattens a finished traceroute session into its summary row and one
/// row per hop.  The first hop record names the session's target.
pub fn trace_result_rows(result: &TracerouteResult, option_value: &String) -> (r: (
    ProbeResultRow,
    Vec<TracerouteRow>,
))
    requires
        result.nodes@.len() > 0,
    ensures
        r.0.probe_id@ == result.probe_id@,
        r.0.probe_type_id@ == command_id_chars(CommandType::Traceroute),
        r.0.probe_target_addr@ == ip_chars(result.nodes@[0].ip_addr),
        r.0.probe_target_name@ == result.nodes@[0].host_name@,
        r.0.protocol_id@ == protocol_id_chars(result.protocol),
        r.0.probe_option@ == option_value@,
        r.0.probe_time == result.elapsed_time,
        r.0.min_value == 0u64 && r.0.avg_value == 0u64 && r.0.max_value == 0u64,
        r.1@.len() == result.nodes@.len(),
        forall|i: int|
            0 <= i < r.1@.len() ==> {
                &&& (#[trigger] r.1@[i]).probe_id@ == result.probe_id@
                &&& r.1@[i].seq == result.nodes@[i].seq
                &&& r.1@[i].ip_addr@ == ip_chars(result.nodes@[i].ip_addr)
                &&& r.1@[i].host_name@ == result.nodes@[i].host_name@
                &&& r.1@[i].ttl == result.nodes@[i].ttl
                &&& r.1@[i].hop == result.nodes@[i].hop
                &&& r.1@[i].rtt == result.nodes@[i].rtt
                &&& r.1@[i].node_type@ == node_type_chars(result.nodes@[i].node_type)
            },
{
    let first = &result.nodes[0];
    let summary = ProbeResultRow {
        probe_id: result.probe_id.clone(),
        probe_type_id: CommandType::Traceroute.id(),
        probe_target_addr: first.ip_addr.to_text(),
        probe_target_name: first.host_name.clone(),
        protocol_id: result.protocol.id(),
        probe_option: option_value.clone(),
        probe_time: result.elapsed_time,
        min_value: 0,
        avg_value: 0,
        max_value: 0,
    };
    let n: usize = result.nodes.len();
    let mut rows: Vec<TracerouteRow> = Vec::new();
    let mut i: usize = 0;
    while i < n
        invariant
            i <= n,
            n == result.nodes@.len(),
            rows@.len() == i,
            forall|k: int|
                0 <= k < i ==> {
                    &&& (#[trigger] rows@[k]).probe_id@ == result.probe_id@
                    &&& rows@[k].seq == result.nodes@[k].seq
                    &&& rows@[k].ip_addr@ == ip_chars(result.nodes@[k].ip_addr)
                    &&& rows@[k].host_name@ == result.nodes@[k].host_name@
                    &&& rows@[k].ttl == result.nodes@[k].ttl
                    &&& rows@[k].hop == result.nodes@[k].hop
                    &&& rows@[k].rtt == result.nodes@[k].rtt
                    &&& rows@[k].node_type@ == node_type_chars(result.nodes@[k].node_type)
                },
        decreases n - i,
    {
        let node = &result.nodes[i];
        rows.push(TracerouteRow {
            probe_id: result.probe_id.clone(),
            seq: node.seq,
            ip_addr: node.ip_addr.to_text(),
            host_name: node.host_name.clone(),
            ttl: node.ttl,
            hop: node.hop,
            rtt: node.rtt,
            node_type: node.node_type.name(),
        });
        i = i + 1;
    }
    (summary, rows)
}

} // verus!
