use bandwhichd_agent::ip::{ip_string, network_string, socket_addr_string, IpAddress, IpNetwork};
use bandwhichd_agent::text::{dec_u128, dec_u64, hex_u16};

#[test]
fn v4_addresses_render_as_dotted_quads() {
    assert_eq!(ip_string(&IpAddress::v4(0, 0, 0, 0)), "0.0.0.0".to_string());
    assert_eq!(ip_string(&IpAddress::v4(127, 0, 0, 1)), "127.0.0.1".to_string());
    assert_eq!(
        ip_string(&IpAddress::v4(255, 255, 255, 255)),
        "255.255.255.255".to_string()
    );
}

#[test]
fn v6_addresses_render_canonically() {
    assert_eq!(ip_string(&IpAddress::v6([0; 8])), "::".to_string());
    assert_eq!(
        ip_string(&IpAddress::v6([0, 0, 0, 0, 0, 0, 0, 1])),
        "::1".to_string()
    );
    assert_eq!(
        ip_string(&IpAddress::v6([0xfe80, 0, 0, 0, 0x8e71, 0x453d, 0x204d, 0xabf8])),
        "fe80::8e71:453d:204d:abf8".to_string()
    );
    // a single zero group is not compressed
    assert_eq!(
        ip_string(&IpAddress::v6([1, 0, 2, 3, 4, 5, 6, 7])),
        "1:0:2:3:4:5:6:7".to_string()
    );
    // of two equally long runs the left one is compressed
    assert_eq!(
        ip_string(&IpAddress::v6([1, 0, 0, 2, 0, 0, 3, 4])),
        "1::2:0:0:3:4".to_string()
    );
    // a run at the end
    assert_eq!(
        ip_string(&IpAddress::v6([0x2001, 0xdb8, 0, 0, 0, 0, 0, 0])),
        "2001:db8::".to_string()
    );
}

#[test]
fn v4_mapped_v6_addresses_render_with_a_dotted_quad() {
    assert_eq!(
        ip_string(&IpAddress::v6([0, 0, 0, 0, 0, 0xffff, 0xc0a8, 0x0001])),
        "::ffff:192.168.0.1".to_string()
    );
}

#[test]
fn socket_addresses_bracket_v6() {
    assert_eq!(
        socket_addr_string(&IpAddress::v4(0, 0, 0, 0), 68),
        "0.0.0.0:68".to_string()
    );
    assert_eq!(
        socket_addr_string(&IpAddress::v6([0; 8]), 37863),
        "[::]:37863".to_string()
    );
}

#[test]
fn networks_render_with_their_prefix() {
    assert_eq!(
        network_string(&IpNetwork { address: IpAddress::v4(172, 17, 0, 1), prefix: 16 }),
        "172.17.0.1/16".to_string()
    );
    assert_eq!(
        network_string(&IpNetwork {
            address: IpAddress::v6([0xfe80, 0, 0, 0, 0x42, 0xa4ff, 0xfef2, 0x4ad4]),
            prefix: 64,
        }),
        "fe80::42:a4ff:fef2:4ad4/64".to_string()
    );
}

#[test]
fn decimal_renderings_are_exact() {
    assert_eq!(dec_u64(0), "0".to_string());
    assert_eq!(dec_u64(65535), "65535".to_string());
    assert_eq!(dec_u128(13882), "13882".to_string());
    assert_eq!(
        dec_u128(u128::MAX),
        "340282366920938463463374607431768211455".to_string()
    );
}

#[test]
fn hexadecimal_renderings_drop_leading_zeros() {
    assert_eq!(hex_u16(0), "0".to_string());
    assert_eq!(hex_u16(0x42), "42".to_string());
    assert_eq!(hex_u16(0xfe80), "fe80".to_string());
}
