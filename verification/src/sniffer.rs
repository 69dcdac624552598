//! The segment extractor: turns one captured link-layer frame into at most
//! one `Segment`.
//!
//! A frame yields a segment exactly when it parses as Ethernet carrying
//! IPv4 or IPv6 carrying TCP or UDP; anything else — an ARP frame, a
//! truncated header, another transport — yields nothing, which is not an
//! error. The direction is derived from the capturing interface's own
//! addresses: a frame whose source address is local is an upload, any other
//! frame a download. The data length is the transport payload length, after
//! the transport header.

use vstd::prelude::*;

use crate::bytes::{be_u128_at, be_u16, be_u32, read_be_u128, read_be_u16, read_be_u32};
use crate::connection::{Connection, Direction, LocalSocket, Protocol, Segment, Socket};
use crate::ip::IpAddress;
use crate::utilization::SegmentModel;

verus! {

pub const ETHERTYPE_IPV4: u16 = 0x0800;

pub const ETHERTYPE_IPV6: u16 = 0x86dd;

pub const IP_PROTOCOL_TCP: u8 = 6;

pub const IP_PROTOCOL_UDP: u8 = 17;

/// The connection key and direction of a frame from `src` to `dst`: a frame
/// leaving a local address is an upload whose local endpoint is the source;
/// any other frame is a download whose local endpoint is the destination.
/// Either way both frames of an exchange name the same connection.
pub open spec fn classify(
    locals: Seq<IpAddress>,
    src_ip: IpAddress,
    src_port: u16,
    dst_ip: IpAddress,
    dst_port: u16,
    protocol: Protocol,
) -> (Connection, Direction) {
    if locals.contains(src_ip) {
        (
            Connection {
                remote_socket: Socket { ip: dst_ip, port: dst_port },
                local_socket: LocalSocket { ip: src_ip, port: src_port, protocol },
            },
            Direction::Upload,
        )
    } else {
        (
            Connection {
                remote_socket: Socket { ip: src_ip, port: src_port },
                local_socket: LocalSocket { ip: dst_ip, port: dst_port, protocol },
            },
            Direction::Download,
        )
    }
}

/// The segment observed for a transport packet with the given endpoints and
/// payload length.
pub open spec fn segment_of(
    locals: Seq<IpAddress>,
    ifname: Seq<char>,
    src_ip: IpAddress,
    src_port: u16,
    dst_ip: IpAddress,
    dst_port: u16,
    protocol: Protocol,
    payload_len: int,
) -> SegmentModel {
    let (connection, direction) = classify(locals, src_ip, src_port, dst_ip, dst_port, protocol);
    SegmentModel { connection, interface_name: ifname, direction, data_length: payload_len }
}

/// Parses the transport header at `off` (spanning `len` bytes of `b`) as TCP
/// or UDP; the payload length is what follows the transport header.
pub open spec fn parse_transport(
    b: Seq<u8>,
    off: int,
    len: int,
    protocol_byte: u8,
    src_ip: IpAddress,
    dst_ip: IpAddress,
    locals: Seq<IpAddress>,
    ifname: Seq<char>,
) -> Option<SegmentModel> {
    if protocol_byte == IP_PROTOCOL_TCP {
        if len < 20 {
            None
        } else {
            let data_offset = (b[off + 12] >> 4u8) as int;
            if data_offset < 5 || data_offset * 4 > len {
                None
            } else {
                Some(
                    segment_of(
                        locals,
                        ifname,
                        src_ip,
                        be_u16(b, off),
                        dst_ip,
                        be_u16(b, off + 2),
                        Protocol::Tcp,
                        len - data_offset * 4,
                    ),
                )
            }
        }
    } else if protocol_byte == IP_PROTOCOL_UDP {
        if len < 8 {
            None
        } else {
            let udp_len = be_u16(b, off + 4) as int;
            if udp_len < 8 || udp_len > len {
                None
            } else {
                Some(
                    segment_of(
                        locals,
                        ifname,
                        src_ip,
                        be_u16(b, off),
                        dst_ip,
                        be_u16(b, off + 2),
                        Protocol::Udp,
                        udp_len - 8,
                    ),
                )
            }
        }
    } else {
        None
    }
}

/// Parses the IPv4 header at `off` and its transport payload.
pub open spec fn parse_ipv4(
    b: Seq<u8>,
    off: int,
    locals: Seq<IpAddress>,
    ifname: Seq<char>,
) -> Option<SegmentModel> {
    if b.len() < off + 20 {
        None
    } else {
        let ihl = (b[off] & 0xf) as int;
        let total_len = be_u16(b, off + 2) as int;
        if b[off] >> 4u8 != 4 || ihl < 5 || total_len < ihl * 4 || total_len > b.len() - off {
            None
        } else {
            parse_transport(
                b,
                off + ihl * 4,
                total_len - ihl * 4,
                b[off + 9],
                IpAddress::V4(be_u32(b, off + 12)),
                IpAddress::V4(be_u32(b, off + 16)),
                locals,
                ifname,
            )
        }
    }
}

/// Parses the IPv6 header at `off` and its transport payload. Extension
/// headers are not walked: a packet whose next header is not directly TCP or
/// UDP yields nothing.
pub open spec fn parse_ipv6(
    b: Seq<u8>,
    off: int,
    locals: Seq<IpAddress>,
    ifname: Seq<char>,
) -> Option<SegmentModel> {
    if b.len() < off + 40 {
        None
    } else {
        let payload_len = be_u16(b, off + 4) as int;
        if b[off] >> 4u8 != 6 || payload_len > b.len() - off - 40 {
            None
        } else {
            parse_transport(
                b,
                off + 40,
                payload_len,
                b[off + 6],
                IpAddress::V6(be_u128_at(b, off + 8, 16)),
                IpAddress::V6(be_u128_at(b, off + 24, 16)),
                locals,
                ifname,
            )
        }
    }
}

/// Parses one Ethernet frame down to at most one observed segment.
pub open spec fn parse_frame(
    b: Seq<u8>,
    locals: Seq<IpAddress>,
    ifname: Seq<char>,
) -> Option<SegmentModel> {
    if b.len() < 14 {
        None
    } else {
        let ethertype = be_u16(b, 12);
        if ethertype == ETHERTYPE_IPV4 {
            parse_ipv4(b, 14, locals, ifname)
        } else if ethertype == ETHERTYPE_IPV6 {
            parse_ipv6(b, 14, locals, ifname)
        } else {
            None
        }
    }
}

/// Decides whether `ip` is one of the interface's own addresses.
fn contains_ip(locals: &Vec<IpAddress>, ip: &IpAddress) -> (r: bool)
    ensures
        r == locals@.contains(*ip),
{
    let n = locals.len();
    let mut i: usize = 0;
    while i < n
        invariant
            i <= n,
            n == locals@.len(),
            forall|j: int| 0 <= j < i ==> locals@[j] != *ip,
        decreases n - i,
    {
        if locals[i] == *ip {
            return true;
        }
        i = i + 1;
    }
    false
}

/// Builds the segment for a parsed transport packet.
fn make_segment(
    locals: &Vec<IpAddress>,
    interface_name: &str,
    src_ip: IpAddress,
    src_port: u16,
    dst_ip: IpAddress,
    dst_port: u16,
    protocol: Protocol,
    payload_len: u16,
) -> (r: Segment)
    ensures
        r@ == segment_of(
            locals@,
            interface_name@,
            src_ip,
            src_port,
            dst_ip,
            dst_port,
            protocol,
            payload_len as int,
        ),
{
    let (connection, direction) = if contains_ip(locals, &src_ip) {
        (
            Connection {
                remote_socket: Socket { ip: dst_ip, port: dst_port },
                local_socket: LocalSocket { ip: src_ip, port: src_port, protocol },
            },
            Direction::Upload,
        )
    } else {
        (
            Connection {
                remote_socket: Socket { ip: src_ip, port: src_port },
                local_socket: LocalSocket { ip: dst_ip, port: dst_port, protocol },
            },
            Direction::Download,
        )
    };
    Segment {
        connection,
        interface_name: String::from_str(interface_name),
        direction,
        data_length: payload_len as u128,
    }
}

/// Parses the transport header at `off..off + len` of the frame.
fn extract_transport(
    frame: &[u8],
    off: usize,
    len: usize,
    protocol_byte: u8,
    src_ip: IpAddress,
    dst_ip: IpAddress,
    locals: &Vec<IpAddress>,
    interface_name: &str,
) -> (r: Option<Segment>)
    requires
        off + len <= frame@.len(),
        len <= u16::MAX,
    ensures
        match r {
            Some(seg) => parse_transport(
                frame@,
                off as int,
                len as int,
                protocol_byte,
                src_ip,
                dst_ip,
                locals@,
                interface_name@,
            ) == Some(seg@),
            None => parse_transport(
                frame@,
                off as int,
                len as int,
                protocol_byte,
                src_ip,
                dst_ip,
                locals@,
                interface_name@,
            ) is None,
        },
{
    // binding the slice length teaches the prover that offsets into it fit
    let _frame_len = frame.len();
    if protocol_byte == IP_PROTOCOL_TCP {
        if len < 20 {
            return None;
        }
        let data_offset = (frame[off + 12] >> 4u8) as usize;
        if data_offset < 5 || data_offset * 4 > len {
            return None;
        }
        let src_port = read_be_u16(frame, off);
        let dst_port = read_be_u16(frame, off + 2);
        Some(
            make_segment(
                locals,
                interface_name,
                src_ip,
                src_port,
                dst_ip,
                dst_port,
                Protocol::Tcp,
                (len - data_offset * 4) as u16,
            ),
        )
    } else if protocol_byte == IP_PROTOCOL_UDP {
        if len < 8 {
            return None;
        }
        let udp_len = read_be_u16(frame, off + 4) as usize;
        if udp_len < 8 || udp_len > len {
            return None;
        }
        let src_port = read_be_u16(frame, off);
        let dst_port = read_be_u16(frame, off + 2);
        Some(
            make_segment(
                locals,
                interface_name,
                src_ip,
                src_port,
                dst_ip,
                dst_port,
                Protocol::Udp,
                (udp_len - 8) as u16,
            ),
        )
    } else {
        None
    }
}

/// Parses one captured frame into at most one segment: `None` on anything
/// that is not Ethernet carrying IPv4/IPv6 carrying TCP/UDP.
pub fn parse_segment(frame: &[u8], locals: &Vec<IpAddress>, interface_name: &str) -> (r: Option<
    Segment,
>)
    ensures
        match r {
            Some(seg) => parse_frame(frame@, locals@, interface_name@) == Some(seg@),
            None => parse_frame(frame@, locals@, interface_name@) is None,
        },
{
    if frame.len() < 14 {
        return None;
    }
    let ethertype = read_be_u16(frame, 12);
    if ethertype == ETHERTYPE_IPV4 {
        if frame.len() < 14 + 20 {
            return None;
        }
        let ihl = (frame[14] & 0xf) as usize;
        let total_len = read_be_u16(frame, 14 + 2) as usize;
        if frame[14] >> 4u8 != 4 || ihl < 5 || total_len < ihl * 4 || total_len > frame.len() - 14 {
            return None;
        }
        let protocol_byte = frame[14 + 9];
        let src_ip = IpAddress::V4(read_be_u32(frame, 14 + 12));
        let dst_ip = IpAddress::V4(read_be_u32(frame, 14 + 16));
        extract_transport(
            frame,
            14 + ihl * 4,
            total_len - ihl * 4,
            protocol_byte,
            src_ip,
            dst_ip,
            locals,
            interface_name,
        )
    } else if ethertype == ETHERTYPE_IPV6 {
        if frame.len() < 14 + 40 {
            return None;
        }
        let payload_len = read_be_u16(frame, 14 + 4) as usize;
        if frame[14] >> 4u8 != 6 || payload_len > frame.len() - 14 - 40 {
            return None;
        }
        let next_header = frame[14 + 6];
        let src_ip = IpAddress::V6(read_be_u128(frame, 14 + 8, 16));
        let dst_ip = IpAddress::V6(read_be_u128(frame, 14 + 24, 16));
        extract_transport(
            frame,
            14 + 40,
            payload_len,
            next_header,
            src_ip,
            dst_ip,
            locals,
            interface_name,
        )
    } else {
        None
    }
}

/// Direction derivation: with `a` a local address and `b` not, a frame from
/// `a:p1` to `b:p2` is an upload and the reverse frame from `b:p2` to `a:p1`
/// a download, and both name the same connection, whose local endpoint is
/// `a:p1` with the protocol and whose remote endpoint is `b:p2`.
pub proof fn lemma_direction_derivation(
    locals: Seq<IpAddress>,
    a: IpAddress,
    p1: u16,
    b: IpAddress,
    p2: u16,
    protocol: Protocol,
)
    requires
        locals.contains(a),
        !locals.contains(b),
    ensures
        classify(locals, a, p1, b, p2, protocol) == (
            Connection {
                remote_socket: Socket { ip: b, port: p2 },
                local_socket: LocalSocket { ip: a, port: p1, protocol },
            },
            Direction::Upload,
        ),
        classify(locals, b, p2, a, p1, protocol) == (
            Connection {
                remote_socket: Socket { ip: b, port: p2 },
                local_socket: LocalSocket { ip: a, port: p1, protocol },
            },
            Direction::Download,
        ),
        classify(locals, a, p1, b, p2, protocol).0 == classify(locals, b, p2, a, p1, protocol).0,
{
}

} // verus!
