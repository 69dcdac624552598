use bandwhichd_agent::connection::{Connection, Direction, Protocol, Segment};
use bandwhichd_agent::ip::IpAddress;
use bandwhichd_agent::timestamp::Timestamp;
use bandwhichd_agent::utilization::Utilization;

fn segment(
    local: (IpAddress, u16),
    remote: (IpAddress, u16),
    protocol: Protocol,
    interface_name: &str,
    direction: Direction,
    data_length: u128,
) -> Segment {
    Segment {
        connection: Connection::new(remote.0, remote.1, local.0, local.1, protocol),
        interface_name: interface_name.to_string(),
        direction,
        data_length,
    }
}

fn loopback() -> IpAddress {
    IpAddress::v4(127, 0, 0, 1)
}

#[test]
fn three_flows_snapshot_into_two_entries_with_exact_totals() {
    // upload 13882 and download 608 on one TCP flow, upload 64 and download
    // 120 on one UDP flow: exactly two entries, totals summed per direction
    let t0 = Timestamp::new(1_651_850_091, 0);
    let t1 = Timestamp::new(1_651_850_101, 0);
    let mut utilization = Utilization::new(t0);

    let tcp_local = (loopback(), 36070);
    let tcp_remote = (loopback(), 8080);
    let udp_local = (IpAddress::v4(192, 168, 10, 87), 43254);
    let udp_remote = (IpAddress::v4(192, 168, 10, 34), 5353);

    utilization.update(segment(tcp_local, tcp_remote, Protocol::Tcp, "lo", Direction::Upload, 13882));
    utilization.update(segment(tcp_local, tcp_remote, Protocol::Tcp, "lo", Direction::Download, 608));
    utilization.update(segment(udp_local, udp_remote, Protocol::Udp, "tun0", Direction::Upload, 64));
    utilization.update(segment(udp_local, udp_remote, Protocol::Udp, "tun0", Direction::Download, 120));

    let snapshot = utilization.clone_and_reset(t1);

    assert_eq!(snapshot.entries.len(), 2);
    let tcp_key = Connection::new(tcp_remote.0, tcp_remote.1, tcp_local.0, tcp_local.1, Protocol::Tcp);
    let udp_key = Connection::new(udp_remote.0, udp_remote.1, udp_local.0, udp_local.1, Protocol::Udp);
    for (connection, info) in snapshot.entries.iter() {
        if *connection == tcp_key {
            assert_eq!(info.interface_name, "lo".to_string());
            assert_eq!(info.total_bytes_uploaded, 13882);
            assert_eq!(info.total_bytes_downloaded, 608);
        } else {
            assert_eq!(*connection, udp_key);
            assert_eq!(info.interface_name, "tun0".to_string());
            assert_eq!(info.total_bytes_uploaded, 64);
            assert_eq!(info.total_bytes_downloaded, 120);
        }
    }
    assert_eq!(snapshot.start, t0);
    assert_eq!(snapshot.stop, t1);

    // the reset leaves an empty live window starting at the cut
    assert_eq!(utilization.entries.len(), 0);
    assert_eq!(utilization.start, t1);
    assert_eq!(utilization.stop, t1);
}

#[test]
fn updates_after_a_reset_land_only_in_the_next_snapshot() {
    let t0 = Timestamp::new(100, 0);
    let t1 = Timestamp::new(110, 0);
    let t2 = Timestamp::new(120, 0);
    let mut utilization = Utilization::new(t0);
    let local = (loopback(), 1000);
    let remote = (loopback(), 2000);

    utilization.update(segment(local, remote, Protocol::Tcp, "lo", Direction::Upload, 10));
    let first = utilization.clone_and_reset(t1);
    utilization.update(segment(local, remote, Protocol::Tcp, "lo", Direction::Upload, 32));
    let second = utilization.clone_and_reset(t2);

    assert_eq!(first.entries.len(), 1);
    assert_eq!(first.entries[0].1.total_bytes_uploaded, 10);
    assert_eq!(second.entries.len(), 1);
    assert_eq!(second.entries[0].1.total_bytes_uploaded, 32);
    assert_eq!(second.start, t1);
    assert_eq!(second.stop, t2);
}

#[test]
fn first_segment_seeds_the_interface_name() {
    let t0 = Timestamp::new(0, 0);
    let mut utilization = Utilization::new(t0);
    let local = (loopback(), 1);
    let remote = (loopback(), 2);
    utilization.update(segment(local, remote, Protocol::Udp, "eth0", Direction::Download, 7));
    utilization.update(segment(local, remote, Protocol::Udp, "eth1", Direction::Download, 5));
    assert_eq!(utilization.entries.len(), 1);
    assert_eq!(utilization.entries[0].1.interface_name, "eth0".to_string());
    assert_eq!(utilization.entries[0].1.total_bytes_downloaded, 12);
}

#[test]
fn try_update_refuses_an_overflowing_total_and_keeps_the_window() {
    let t0 = Timestamp::new(0, 0);
    let mut utilization = Utilization::new(t0);
    let local = (loopback(), 1);
    let remote = (loopback(), 2);
    assert!(utilization.try_update(segment(local, remote, Protocol::Tcp, "lo", Direction::Upload, u128::MAX)));
    assert!(!utilization.try_update(segment(local, remote, Protocol::Tcp, "lo", Direction::Upload, 1)));
    assert_eq!(utilization.entries.len(), 1);
    assert_eq!(utilization.entries[0].1.total_bytes_uploaded, u128::MAX);
    // the other direction still has room
    assert!(utilization.try_update(segment(local, remote, Protocol::Tcp, "lo", Direction::Download, 1)));
    assert_eq!(utilization.entries[0].1.total_bytes_downloaded, 1);
}
