use bandwhichd_agent::connection::{Connection, LocalSocket, Protocol};
use bandwhichd_agent::ip::IpAddress;
use bandwhichd_agent::publish::OpenSockets;
use bandwhichd_agent::publish_legacy::VersionedPublishMessage;
use bandwhichd_agent::timestamp::Timestamp;
use bandwhichd_agent::utilization::{ConnectionInfo, Utilization};

fn example_window() -> Utilization {
    Utilization {
        entries: vec![
            (
                Connection::new(
                    IpAddress::v4(127, 0, 0, 1),
                    8080,
                    IpAddress::v4(127, 0, 0, 1),
                    36070,
                    Protocol::Tcp,
                ),
                ConnectionInfo {
                    interface_name: "lo".to_string(),
                    total_bytes_downloaded: 608,
                    total_bytes_uploaded: 13882,
                },
            ),
            (
                Connection::new(
                    IpAddress::v4(192, 168, 10, 34),
                    5353,
                    IpAddress::v4(192, 168, 10, 87),
                    43254,
                    Protocol::Udp,
                ),
                ConnectionInfo {
                    interface_name: "tun0".to_string(),
                    total_bytes_downloaded: 120,
                    total_bytes_uploaded: 64,
                },
            ),
        ],
        start: Timestamp::new(100, 0),
        stop: Timestamp::new(110, 0),
    }
}

#[test]
fn versioned_message_looks_up_the_owning_process() {
    let open_sockets = OpenSockets {
        sockets_to_procs: vec![(
            LocalSocket {
                ip: IpAddress::v4(127, 0, 0, 1),
                port: 36070,
                protocol: Protocol::Tcp,
            },
            "curl".to_string(),
        )],
    };
    let message = VersionedPublishMessage::from(example_window(), open_sockets);
    let value: serde_json::Value = serde_json::from_str(message.to_json().as_str()).unwrap();
    let expected: serde_json::Value = serde_json::from_str(
        r#"{
        "version": "1",
        "message": {
            "connections": [
                {
                    "interface_name": "lo",
                    "protocol": "tcp",
                    "local_host": "127.0.0.1",
                    "local_port": 36070,
                    "process": "curl",
                    "remote_host": "127.0.0.1",
                    "remote_port": 8080,
                    "received": 608,
                    "sent": 13882
                },
                {
                    "interface_name": "tun0",
                    "protocol": "udp",
                    "local_host": "192.168.10.87",
                    "local_port": 43254,
                    "process": null,
                    "remote_host": "192.168.10.34",
                    "remote_port": 5353,
                    "received": 120,
                    "sent": 64
                }
            ]
        }
    }"#,
    )
    .unwrap();
    assert_eq!(value, expected);
}

#[test]
fn versioned_message_counters_are_json_numbers() {
    let message = VersionedPublishMessage::from(
        example_window(),
        OpenSockets { sockets_to_procs: vec![] },
    );
    let text = message.to_json();
    assert!(text.contains("\"received\":608"));
    assert!(text.contains("\"sent\":13882"));
}
