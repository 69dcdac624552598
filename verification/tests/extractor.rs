use bandwhichd_agent::connection::{Connection, Direction, Protocol};
use bandwhichd_agent::ip::IpAddress;
use bandwhichd_agent::sniffer::parse_segment;

fn ethernet(ethertype: u16, payload: &[u8]) -> Vec<u8> {
    let mut frame = vec![0u8; 12];
    frame.push((ethertype >> 8) as u8);
    frame.push(ethertype as u8);
    frame.extend_from_slice(payload);
    frame
}

fn ipv4(protocol: u8, src: [u8; 4], dst: [u8; 4], transport: &[u8]) -> Vec<u8> {
    let total_len = (20 + transport.len()) as u16;
    let mut p = vec![
        0x45,
        0,
        (total_len >> 8) as u8,
        total_len as u8,
        0,
        0,
        0,
        0,
        64,
        protocol,
        0,
        0,
    ];
    p.extend_from_slice(&src);
    p.extend_from_slice(&dst);
    p.extend_from_slice(transport);
    p
}

fn ipv6(next_header: u8, src: [u8; 16], dst: [u8; 16], transport: &[u8]) -> Vec<u8> {
    let payload_len = transport.len() as u16;
    let mut p = vec![
        0x60,
        0,
        0,
        0,
        (payload_len >> 8) as u8,
        payload_len as u8,
        next_header,
        64,
    ];
    p.extend_from_slice(&src);
    p.extend_from_slice(&dst);
    p.extend_from_slice(transport);
    p
}

fn tcp(src_port: u16, dst_port: u16, payload_len: usize) -> Vec<u8> {
    let mut t = vec![0u8; 20 + payload_len];
    t[0] = (src_port >> 8) as u8;
    t[1] = src_port as u8;
    t[2] = (dst_port >> 8) as u8;
    t[3] = dst_port as u8;
    t[12] = 5 << 4; // data offset: five 32-bit words
    t
}

fn udp(src_port: u16, dst_port: u16, payload_len: usize) -> Vec<u8> {
    let len = (8 + payload_len) as u16;
    let mut t = vec![0u8; 8 + payload_len];
    t[0] = (src_port >> 8) as u8;
    t[1] = src_port as u8;
    t[2] = (dst_port >> 8) as u8;
    t[3] = dst_port as u8;
    t[4] = (len >> 8) as u8;
    t[5] = len as u8;
    t
}

#[test]
fn direction_is_derived_from_the_local_address_set() {
    // local address A, remote address B: A:p1 -> B:p2 is an upload and the
    // reverse frame a download, both of the same connection
    let a = [10, 0, 0, 1];
    let b = [10, 0, 0, 2];
    let locals = vec![IpAddress::v4(10, 0, 0, 1)];
    let expected_connection = Connection::new(
        IpAddress::v4(10, 0, 0, 2),
        443,
        IpAddress::v4(10, 0, 0, 1),
        50000,
        Protocol::Tcp,
    );

    let out_frame = ethernet(0x0800, &ipv4(6, a, b, &tcp(50000, 443, 100)));
    let seg = parse_segment(&out_frame, &locals, "eth0").unwrap();
    assert_eq!(seg.direction, Direction::Upload);
    assert_eq!(seg.connection, expected_connection);
    assert_eq!(seg.interface_name, "eth0".to_string());
    assert_eq!(seg.data_length, 100);

    let back_frame = ethernet(0x0800, &ipv4(6, b, a, &tcp(443, 50000, 40)));
    let seg = parse_segment(&back_frame, &locals, "eth0").unwrap();
    assert_eq!(seg.direction, Direction::Download);
    assert_eq!(seg.connection, expected_connection);
    assert_eq!(seg.data_length, 40);
}

#[test]
fn tcp_data_length_is_the_payload_after_the_transport_header() {
    let locals = vec![IpAddress::v4(127, 0, 0, 1)];
    let frame = ethernet(
        0x0800,
        &ipv4(6, [127, 0, 0, 1], [127, 0, 0, 1], &tcp(36070, 8080, 13882)),
    );
    let seg = parse_segment(&frame, &locals, "lo").unwrap();
    assert_eq!(seg.data_length, 13882);
    assert_eq!(seg.connection.local_socket.protocol, Protocol::Tcp);
}

#[test]
fn udp_data_length_comes_from_the_udp_length_field() {
    let locals = vec![IpAddress::v4(192, 168, 10, 87)];
    let frame = ethernet(
        0x0800,
        &ipv4(
            17,
            [192, 168, 10, 87],
            [192, 168, 10, 34],
            &udp(43254, 5353, 64),
        ),
    );
    let seg = parse_segment(&frame, &locals, "tun0").unwrap();
    assert_eq!(seg.direction, Direction::Upload);
    assert_eq!(seg.data_length, 64);
    assert_eq!(seg.connection.local_socket.protocol, Protocol::Udp);
    assert_eq!(seg.connection.local_socket.port, 43254);
    assert_eq!(seg.connection.remote_socket.port, 5353);
}

#[test]
fn ipv6_tcp_frames_parse_with_v6_addresses() {
    let mut src = [0u8; 16];
    src[0] = 0xfe;
    src[1] = 0x80;
    src[15] = 1;
    let mut dst = [0u8; 16];
    dst[0] = 0xfe;
    dst[1] = 0x80;
    dst[15] = 2;
    let local = IpAddress::v6([0xfe80, 0, 0, 0, 0, 0, 0, 1]);
    let remote = IpAddress::v6([0xfe80, 0, 0, 0, 0, 0, 0, 2]);
    let locals = vec![local];
    let frame = ethernet(0x86dd, &ipv6(6, src, dst, &tcp(50000, 80, 9)));
    let seg = parse_segment(&frame, &locals, "wlp3s0").unwrap();
    assert_eq!(seg.direction, Direction::Upload);
    assert_eq!(seg.connection.local_socket.ip, local);
    assert_eq!(seg.connection.remote_socket.ip, remote);
    assert_eq!(seg.data_length, 9);
}

#[test]
fn frames_that_are_not_ip_tcp_udp_yield_nothing() {
    let locals = vec![IpAddress::v4(10, 0, 0, 1)];
    // ARP ethertype
    let arp = ethernet(0x0806, &[0u8; 28]);
    assert!(parse_segment(&arp, &locals, "eth0").is_none());
    // ICMP inside IPv4
    let icmp = ethernet(0x0800, &ipv4(1, [10, 0, 0, 1], [10, 0, 0, 2], &[0u8; 8]));
    assert!(parse_segment(&icmp, &locals, "eth0").is_none());
    // a frame too short for an Ethernet header
    assert!(parse_segment(&[0u8; 10], &locals, "eth0").is_none());
    // a truncated IPv4 header
    let short = ethernet(0x0800, &[0x45, 0, 0, 20]);
    assert!(parse_segment(&short, &locals, "eth0").is_none());
}

#[test]
fn inconsistent_lengths_yield_nothing() {
    let locals = vec![IpAddress::v4(10, 0, 0, 1)];
    // a UDP length field larger than the datagram
    let mut t = udp(1, 2, 0);
    t[4] = 0xff;
    t[5] = 0xff;
    let frame = ethernet(0x0800, &ipv4(17, [10, 0, 0, 1], [10, 0, 0, 2], &t));
    assert!(parse_segment(&frame, &locals, "eth0").is_none());
    // a TCP data offset beyond the segment
    let mut t = tcp(1, 2, 0);
    t[12] = 15 << 4;
    let frame = ethernet(0x0800, &ipv4(6, [10, 0, 0, 1], [10, 0, 0, 2], &t));
    assert!(parse_segment(&frame, &locals, "eth0").is_none());
}
