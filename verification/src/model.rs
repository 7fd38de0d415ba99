//! Network node modeling: addresses, node roles, and per-node scan findings.

use vstd::prelude::*;

use crate::text::{ipv4_chars, ipv4_to_string, ipv6_chars, ipv6_to_string};

verus! {

/// Textual form of an address: dotted-quad for IPv4, uncompressed
/// colon-grouped hex for IPv6.
pub open spec fn ip_chars(ip: IpAddress) -> Seq<char> {
    match ip {
        IpAddress::V4(a) => ipv4_chars(a),
        IpAddress::V6(a) => ipv6_chars(a),
    }
}

/// An IP address held as its numeric value, so that the engine's logic can
/// be stated over plain integers.  Textual forms are produced by
/// [`crate::text`]'s formatters.
#[derive(Clone, Copy, Debug, PartialEq, Eq, Structural)]
pub enum IpAddress {
    /// IPv4 address as its 32-bit big-endian numeric value.
    V4(u32),
    /// IPv6 address as its 128-bit big-endian numeric value.
    V6(u128),
}

impl IpAddress {
    /// The IPv4 loopback address 127.0.0.1.
    pub fn localhost() -> (r: IpAddress)
        ensures
            r == IpAddress::V4(0x7f000001u32),
    {
        IpAddress::V4(0x7f000001)
    }

    /// Renders the address as text.
    pub fn to_text(&self) -> (r: String)
        ensures
            r@ == ip_chars(*self),
    {
        match *self {
            IpAddress::V4(a) => ipv4_to_string(a),
            IpAddress::V6(a) => ipv6_to_string(a),
        }
    }
}

/// Display text of each node role.
pub open spec fn node_type_chars(t: NodeType) -> Seq<char> {
    match t {
        NodeType::Destination => "Destination"@,
        NodeType::Intermediate => "Intermediate"@,
    }
}

/// Role of a responding node within a traceroute-style session.
#[derive(Clone, Copy, Debug, PartialEq, Eq, Structural)]
pub enum NodeType {
    /// The probed target itself answered.
    Destination,
    /// A router on the path answered.
    Intermediate,
}

impl NodeType {
    pub fn name(&self) -> (r: String)
        ensures
            r@ == node_type_chars(*self),
    {
        match *self {
            NodeType::Destination => String::from_str("Destination"),
            NodeType::Intermediate => String::from_str("Intermediate"),
        }
    }
}

/// One open port found on a node, with the service resolved for it.
#[derive(Clone, Debug, PartialEq)]
pub struct PortInfo {
    pub port_number: u16,
    /// Port state label, e.g. "open".
    pub port_status: String,
    pub service_name: String,
    pub service_version: String,
}

/// Everything a scan has learned about one node.
#[derive(Clone, Debug, PartialEq)]
pub struct NodeInfo {
    pub ip_addr: IpAddress,
    pub host_name: String,
    pub mac_addr: String,
    pub vendor_info: String,
    pub os_name: String,
    pub cpe: String,
    /// Open ports found on this node, with resolved services.
    pub ports: Vec<PortInfo>,
}

} // verus!
