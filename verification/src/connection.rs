//! Connection identity: protocols, socket endpoints, the aggregation key,
//! and observed traffic events.

use vstd::prelude::*;

use crate::ip::IpAddress;

verus! {

/// The transport protocol of a connection.
#[derive(Clone, Copy, PartialEq, Eq, Structural, Debug, Hash)]
pub enum Protocol {
    Tcp,
    Udp,
}

impl Protocol {
    /// The wire name of the protocol.
    pub open spec fn spec_name(self) -> Seq<char> {
        match self {
            Protocol::Tcp => "tcp"@,
            Protocol::Udp => "udp"@,
        }
    }

    /// Returns the wire name of the protocol.
    pub fn name(&self) -> (r: &'static str)
        ensures
            r@ == self.spec_name(),
    {
        match self {
            Protocol::Tcp => "tcp",
            Protocol::Udp => "udp",
        }
    }

    /// Tcp orders before Udp.
    pub open spec fn spec_rank(self) -> int {
        match self {
            Protocol::Tcp => 0,
            Protocol::Udp => 1,
        }
    }

    pub fn rank(&self) -> (r: u8)
        ensures
            r as int == self.spec_rank(),
    {
        match self {
            Protocol::Tcp => 0,
            Protocol::Udp => 1,
        }
    }
}

/// A remote endpoint of a connection. The protocol is not part of a remote
/// endpoint's identity; the connection's local endpoint carries it.
#[derive(Clone, Copy, PartialEq, Eq, Structural, Debug, Hash)]
pub struct Socket {
    pub ip: IpAddress,
    pub port: u16,
}

/// A local endpoint. The protocol is part of its identity, because the same
/// address and port can carry independent TCP and UDP flows.
#[derive(Clone, Copy, PartialEq, Eq, Structural, Debug, Hash)]
pub struct LocalSocket {
    pub ip: IpAddress,
    pub port: u16,
    pub protocol: Protocol,
}

/// The aggregation key: both endpoints of a flow. Direction is derived per
/// frame, never part of the identity, so upload and download frames of one
/// flow aggregate into one entry.
#[derive(Clone, Copy, PartialEq, Eq, Structural, Debug, Hash)]
pub struct Connection {
    pub remote_socket: Socket,
    pub local_socket: LocalSocket,
}

impl Connection {
    pub fn new(remote_ip: IpAddress, remote_port: u16, local_ip: IpAddress, local_port: u16, protocol: Protocol) -> (r:
        Connection)
        ensures
            r == (Connection {
                remote_socket: Socket { ip: remote_ip, port: remote_port },
                local_socket: LocalSocket { ip: local_ip, port: local_port, protocol },
            }),
    {
        Connection {
            remote_socket: Socket { ip: remote_ip, port: remote_port },
            local_socket: LocalSocket { ip: local_ip, port: local_port, protocol },
        }
    }
}

/// Which way an observed frame travelled, relative to this host.
#[derive(Clone, Copy, PartialEq, Eq, Structural, Debug)]
pub enum Direction {
    Download,
    Upload,
}

/// One observed frame's contribution to a connection's byte count: the
/// connection it belongs to, the capturing interface, the derived direction,
/// and the transport payload length.
#[derive(Clone, PartialEq, Eq, Debug)]
pub struct Segment {
    pub connection: Connection,
    pub interface_name: String,
    pub direction: Direction,
    pub data_length: u128,
}

} // verus!
