//! Scan-kind and protocol discriminators shared by every session result.

use vstd::prelude::*;

verus! {

/// Stable identifier text of each scan kind.
pub open spec fn command_id_chars(c: CommandType) -> Seq<char> {
    match c {
        CommandType::PortScan => "port_scan"@,
        CommandType::HostScan => "host_scan"@,
        CommandType::Ping => "ping"@,
        CommandType::Traceroute => "traceroute"@,
        CommandType::DomainScan => "domain_scan"@,
    }
}

/// Stable identifier text of each protocol.
pub open spec fn protocol_id_chars(p: Protocol) -> Seq<char> {
    match p {
        Protocol::Icmp => "icmp"@,
        Protocol::Icmpv6 => "icmpv6"@,
        Protocol::Tcp => "tcp"@,
        Protocol::Udp => "udp"@,
        Protocol::Arp => "arp"@,
    }
}

/// The five kinds of probe sessions the engine runs.
#[derive(Clone, Copy, Debug, PartialEq, Eq, Structural)]
pub enum CommandType {
    PortScan,
    HostScan,
    Ping,
    Traceroute,
    DomainScan,
}

impl CommandType {
    /// Stable identifier used to key persisted session records.
    pub fn id(&self) -> (r: String)
        ensures
            r@ == command_id_chars(*self),
    {
        match *self {
            CommandType::PortScan => String::from_str("port_scan"),
            CommandType::HostScan => String::from_str("host_scan"),
            CommandType::Ping => String::from_str("ping"),
            CommandType::Traceroute => String::from_str("traceroute"),
            CommandType::DomainScan => String::from_str("domain_scan"),
        }
    }
}

/// Transport protocol a session declares for its probes.
#[derive(Clone, Copy, Debug, PartialEq, Eq, Structural)]
pub enum Protocol {
    Icmp,
    Icmpv6,
    Tcp,
    Udp,
    Arp,
}

impl Protocol {
    /// Stable identifier used to key persisted session records.
    pub fn id(&self) -> (r: String)
        ensures
            r@ == protocol_id_chars(*self),
    {
        match *self {
            Protocol::Icmp => String::from_str("icmp"),
            Protocol::Icmpv6 => String::from_str("icmpv6"),
            Protocol::Tcp => String::from_str("tcp"),
            Protocol::Udp => String::from_str("udp"),
            Protocol::Arp => String::from_str("arp"),
        }
    }
}

/// How a port scan probes each port.
#[derive(Clone, Copy, Debug, PartialEq, Eq, Structural)]
pub enum PortScanType {
    TcpSynScan,
    TcpConnectScan,
}

/// How a host scan decides that a host is alive.
#[derive(Clone, Copy, Debug, PartialEq, Eq, Structural)]
pub enum HostScanType {
    IcmpPingScan,
    TcpPingScan,
    UdpPingScan,
}

} // verus!
