//! Target addresses of relayed UDP datagrams.

use vstd::prelude::*;

verus! {

/// IP address of a concrete socket target, held as its numeric value
/// (big-endian interpretation of the wire bytes).
#[derive(Clone, Copy, PartialEq, Eq, Structural, Debug)]
pub enum IpAddress {
    V4(u32),
    V6(u128),
}

/// Target of a relayed UDP datagram: absent, a domain name with a port, or a
/// concrete socket address. Immutable value; equality is structural.
#[derive(Clone, Debug)]
pub enum Address {
    /// No target is named by this unit.
    Unspecified,
    /// A domain name (raw bytes as they appeared on the wire) and a port.
    DomainPort { host: Vec<u8>, port: u16 },
    /// A concrete socket address.
    SocketAddress { ip: IpAddress, port: u16 },
}

/// Mathematical value of an [`Address`].
#[verifier::ext_equal]
pub ghost enum AddrModel {
    Unspecified,
    DomainPort { host: Seq<u8>, port: u16 },
    SocketAddress { ip: IpAddress, port: u16 },
}

impl View for Address {
    type V = AddrModel;

    open spec fn view(&self) -> AddrModel {
        match self {
            Address::Unspecified => AddrModel::Unspecified,
            Address::DomainPort { host, port } => AddrModel::DomainPort {
                host: host@,
                port: *port,
            },
            Address::SocketAddress { ip, port } => AddrModel::SocketAddress {
                ip: *ip,
                port: *port,
            },
        }
    }
}

} // verus!
