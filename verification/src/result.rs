//! Session result records: one per probe kind, plus the per-probe response
//! record and the derived ping statistics.

use vstd::prelude::*;

use crate::command::{CommandType, HostScanType, PortScanType, Protocol};
use crate::model::{IpAddress, NodeInfo, NodeType};

verus! {

/// Display text of each probe status.
pub open spec fn status_chars(s: ProbeStatus) -> Seq<char> {
    match s {
        ProbeStatus::Done => "Done"@,
        ProbeStatus::Error => "Error"@,
        ProbeStatus::Timeout => "Timeout"@,
    }
}

/// Exit status of a probe, or of a whole session.
#[derive(Clone, Copy, Debug, PartialEq, Eq, Structural)]
pub enum ProbeStatus {
    /// Successfully completed
    Done,
    /// Interrupted by error
    Error,
    /// Execution time exceeds the configured timeout value
    Timeout,
}

impl ProbeStatus {
    pub fn name(&self) -> (r: String)
        ensures
            r@ == status_chars(*self),
    {
        match *self {
            ProbeStatus::Done => String::from_str("Done"),
            ProbeStatus::Error => String::from_str("Error"),
            ProbeStatus::Timeout => String::from_str("Timeout"),
        }
    }
}

/// One observed reply to one probe.
#[derive(Debug, PartialEq)]
pub struct PingResponse {
    /// Sequence number, unique within a session.
    pub seq: u8,
    /// IP address of the responding node.
    pub ip_addr: IpAddress,
    /// Resolved host name; empty when unresolved.
    pub host_name: String,
    /// Probed port, when the probe kind has one.
    pub port_number: Option<u16>,
    /// Time To Live observed on the reply.
    pub ttl: u8,
    /// Number of hops to the responding node.
    pub hop: u8,
    /// Round trip time in microseconds.
    pub rtt: u64,
    /// Status of this probe.
    pub status: ProbeStatus,
    /// Protocol label, e.g. "icmp".
    pub protocol: String,
    /// Role of the responding node.
    pub node_type: NodeType,
}

impl Clone for PingResponse {
    fn clone(&self) -> (r: Self)
        ensures
            r == *self,
    {
        PingResponse {
            seq: self.seq,
            ip_addr: self.ip_addr,
            host_name: self.host_name.clone(),
            port_number: self.port_number,
            ttl: self.ttl,
            hop: self.hop,
            rtt: self.rtt,
            status: self.status,
            protocol: self.protocol.clone(),
            node_type: self.node_type,
        }
    }
}

impl PingResponse {
    pub fn new() -> (r: PingResponse)
        ensures
            r.seq == 0u8,
            r.ip_addr == IpAddress::V4(0x7f000001u32),
            r.host_name@ == Seq::<char>::empty(),
            r.port_number is None,
            r.ttl == 0u8,
            r.hop == 0u8,
            r.rtt == 0u64,
            r.status is Done,
            r.protocol@ == Seq::<char>::empty(),
            r.node_type is Destination,
    {
        PingResponse {
            seq: 0,
            ip_addr: IpAddress::localhost(),
            host_name: String::new(),
            port_number: None,
            ttl: 0,
            hop: 0,
            rtt: 0,
            status: ProbeStatus::Done,
            protocol: String::new(),
            node_type: NodeType::Destination,
        }
    }
}

/// Summary statistics over one ping session.  All times are microseconds.
#[derive(Debug, PartialEq)]
pub struct PingStat {
    /// Ping responses
    pub responses: Vec<PingResponse>,
    /// The entire ping probe time
    pub probe_time: u64,
    /// Transmitted packets
    pub transmitted_count: usize,
    /// Received packets
    pub received_count: usize,
    /// Minimum RTT
    pub min: u64,
    /// Average RTT
    pub avg: u64,
    /// Maximum RTT
    pub max: u64,
}

impl Clone for PingStat {
    fn clone(&self) -> (r: Self)
        ensures
            r.responses@ == self.responses@,
            r.probe_time == self.probe_time,
            r.transmitted_count == self.transmitted_count,
            r.received_count == self.received_count,
            r.min == self.min,
            r.avg == self.avg,
            r.max == self.max,
    {
        let mut responses: Vec<PingResponse> = Vec::new();
        let n: usize = self.responses.len();
        let mut i: usize = 0;
        while i < n
            invariant
                i <= n,
                n == self.responses@.len(),
                responses@ == self.responses@.take(i as int),
            decreases n - i,
        {
            responses.push(self.responses[i].clone());
            proof {
                assert(self.responses@.take(i + 1) =~= self.responses@.take(i as int).push(
                    self.responses@[i as int],
                ));
            }
            i = i + 1;
        }
        proof {
            assert(self.responses@.take(n as int) =~= self.responses@);
        }
        PingStat {
            responses,
            probe_time: self.probe_time,
            transmitted_count: self.transmitted_count,
            received_count: self.received_count,
            min: self.min,
            avg: self.avg,
            max: self.max,
        }
    }
}

impl PingStat {
    pub fn new() -> (r: PingStat)
        ensures
            r.responses@ == Seq::<PingResponse>::empty(),
            r.probe_time == 0u64,
            r.transmitted_count == 0usize,
            r.received_count == 0usize,
            r.min == 0u64,
            r.avg == 0u64,
            r.max == 0u64,
    {
        PingStat {
            responses: Vec::new(),
            probe_time: 0,
            transmitted_count: 0,
            received_count: 0,
            min: 0,
            avg: 0,
            max: 0,
        }
    }
}

/// Result of one port-scan session.
#[derive(Clone, Debug, PartialEq)]
pub struct PortScanResult {
    pub probe_id: String,
    pub nodes: Vec<NodeInfo>,
    pub probe_status: ProbeStatus,
    /// start-time in RFC 3339 and ISO 8601 date and time string
    pub start_time: String,
    /// end-time in RFC 3339 and ISO 8601 date and time string
    pub end_time: String,
    /// Elapsed wall-clock time in milliseconds.
    pub elapsed_time: u64,
    pub protocol: Protocol,
    pub command_type: CommandType,
    pub scan_type: PortScanType,
    pub issued_at: String,
}

impl PortScanResult {
    pub fn new() -> (r: PortScanResult)
        ensures
            r.probe_id@ == Seq::<char>::empty(),
            r.nodes@ == Seq::<NodeInfo>::empty(),
            r.probe_status is Done,
            r.start_time@ == Seq::<char>::empty(),
            r.end_time@ == Seq::<char>::empty(),
            r.elapsed_time == 0u64,
            r.protocol is Tcp,
            r.command_type is PortScan,
            r.scan_type is TcpSynScan,
            r.issued_at@ == Seq::<char>::empty(),
    {
        PortScanResult {
            probe_id: String::new(),
            nodes: Vec::new(),
            probe_status: ProbeStatus::Done,
            start_time: String::new(),
            end_time: String::new(),
            elapsed_time: 0,
            protocol: Protocol::Tcp,
            command_type: CommandType::PortScan,
            scan_type: PortScanType::TcpSynScan,
            issued_at: String::new(),
        }
    }
}

/// Result of one host-scan session.
#[derive(Clone, Debug, PartialEq)]
pub struct HostScanResult {
    pub probe_id: String,
    pub nodes: Vec<NodeInfo>,
    pub probe_status: ProbeStatus,
    /// start-time in RFC 3339 and ISO 8601 date and time string
    pub start_time: String,
    /// end-time in RFC 3339 and ISO 8601 date and time string
    pub end_time: String,
    /// Elapsed wall-clock time in milliseconds.
    pub elapsed_time: u64,
    pub protocol: Protocol,
    pub command_type: CommandType,
    pub scan_type: HostScanType,
    pub issued_at: String,
}

impl HostScanResult {
    pub fn new() -> (r: HostScanResult)
        ensures
            r.probe_id@ == Seq::<char>::empty(),
            r.nodes@ == Seq::<NodeInfo>::empty(),
            r.probe_status is Done,
            r.start_time@ == Seq::<char>::empty(),
            r.end_time@ == Seq::<char>::empty(),
            r.elapsed_time == 0u64,
            r.protocol is Icmp,
            r.command_type is HostScan,
            r.scan_type is IcmpPingScan,
            r.issued_at@ == Seq::<char>::empty(),
    {
        HostScanResult {
            probe_id: String::new(),
            nodes: Vec::new(),
            probe_status: ProbeStatus::Done,
            start_time: String::new(),
            end_time: String::new(),
            elapsed_time: 0,
            protocol: Protocol::Icmp,
            command_type: CommandType::HostScan,
            scan_type: HostScanType::IcmpPingScan,
            issued_at: String::new(),
        }
    }
}

/// Result of one ping session.
#[derive(Clone, Debug, PartialEq)]
pub struct PingResult {
    pub probe_id: String,
    pub stat: PingStat,
    pub probe_status: ProbeStatus,
    /// start-time in RFC 3339 and ISO 8601 date and time string
    pub start_time: String,
    /// end-time in RFC 3339 and ISO 8601 date and time string
    pub end_time: String,
    /// Elapsed wall-clock time in milliseconds.
    pub elapsed_time: u64,
    pub protocol: Protocol,
    pub command_type: CommandType,
    pub issued_at: String,
}

impl PingResult {
    pub fn new() -> (r: PingResult)
        ensures
            r.probe_id@ == Seq::<char>::empty(),
            r.stat.responses@ == Seq::<PingResponse>::empty(),
            r.stat.probe_time == 0u64,
            r.stat.transmitted_count == 0usize,
            r.stat.received_count == 0usize,
            r.stat.min == 0u64,
            r.stat.avg == 0u64,
            r.stat.max == 0u64,
            r.probe_status is Done,
            r.start_time@ == Seq::<char>::empty(),
            r.end_time@ == Seq::<char>::empty(),
            r.elapsed_time == 0u64,
            r.protocol is Icmp,
            r.command_type is Ping,
            r.issued_at@ == Seq::<char>::empty(),
    {
        PingResult {
            probe_id: String::new(),
            stat: PingStat::new(),
            probe_status: ProbeStatus::Done,
            start_time: String::new(),
            end_time: String::new(),
            elapsed_time: 0,
            protocol: Protocol::Icmp,
            command_type: CommandType::Ping,
            issued_at: String::new(),
        }
    }
}

/// Result of one traceroute session.
#[derive(Clone, Debug, PartialEq)]
pub struct TracerouteResult {
    pub probe_id: String,
    pub nodes: Vec<PingResponse>,
    pub probe_status: ProbeStatus,
    /// start-time in RFC 3339 and ISO 8601 date and time string
    pub start_time: String,
    /// end-time in RFC 3339 and ISO 8601 date and time string
    pub end_time: String,
    /// Elapsed wall-clock time in milliseconds.
    pub elapsed_time: u64,
    pub protocol: Protocol,
    pub command_type: CommandType,
    pub issued_at: String,
}

impl TracerouteResult {
    pub fn new() -> (r: TracerouteResult)
        ensures
            r.probe_id@ == Seq::<char>::empty(),
            r.nodes@ == Seq::<PingResponse>::empty(),
            r.probe_status is Done,
            r.start_time@ == Seq::<char>::empty(),
            r.end_time@ == Seq::<char>::empty(),
            r.elapsed_time == 0u64,
            r.protocol is Udp,
            r.command_type is Traceroute,
            r.issued_at@ == Seq::<char>::empty(),
    {
        TracerouteResult {
            probe_id: String::new(),
            nodes: Vec::new(),
            probe_status: ProbeStatus::Done,
            start_time: String::new(),
            end_time: String::new(),
            elapsed_time: 0,
            protocol: Protocol::Udp,
            command_type: CommandType::Traceroute,
            issued_at: String::new(),
        }
    }
}

/// One discovered domain and the addresses it resolves to.
#[derive(Clone, Debug, PartialEq)]
pub struct Domain {
    pub domain_name: String,
    pub ips: Vec<IpAddress>,
}

/// Result of one subdomain-scan session.
#[derive(Clone, Debug, PartialEq)]
pub struct DomainScanResult {
    pub probe_id: String,
    pub base_domain: String,
    pub domains: Vec<Domain>,
    pub probe_status: ProbeStatus,
    /// start-time in RFC 3339 and ISO 8601 date and time string
    pub start_time: String,
    /// end-time in RFC 3339 and ISO 8601 date and time string
    pub end_time: String,
    /// Elapsed wall-clock time in milliseconds.
    pub elapsed_time: u64,
    pub protocol: Protocol,
    pub command_type: CommandType,
    pub issued_at: String,
}

impl DomainScanResult {
    pub fn new() -> (r: DomainScanResult)
        ensures
            r.probe_id@ == Seq::<char>::empty(),
            r.base_domain@ == Seq::<char>::empty(),
            r.domains@ == Seq::<Domain>::empty(),
            r.probe_status is Done,
            r.start_time@ == Seq::<char>::empty(),
            r.end_time@ == Seq::<char>::empty(),
            r.elapsed_time == 0u64,
            r.protocol is Udp,
            r.command_type is DomainScan,
            r.issued_at@ == Seq::<char>::empty(),
    {
        DomainScanResult {
            probe_id: String::new(),
            base_domain: String::new(),
            domains: Vec::new(),
            probe_status: ProbeStatus::Done,
            start_time: String::new(),
            end_time: String::new(),
            elapsed_time: 0,
            protocol: Protocol::Udp,
            command_type: CommandType::DomainScan,
            issued_at: String::new(),
        }
    }
}

} // verus!
