use bandwhichd_agent::connection::{Connection, Protocol};
use bandwhichd_agent::ip::{IpAddress, IpNetwork};
use bandwhichd_agent::machine_id::MachineId;
use bandwhichd_agent::os_release::OsRelease;
use bandwhichd_agent::publish::{
    Message, NetworkConfigurationV1MeasurementMessage, NetworkUtilizationV1MeasurementMessage,
    OpenSockets,
};
use bandwhichd_agent::connection::LocalSocket;
use bandwhichd_agent::publish::InterfaceV1;
use bandwhichd_agent::timestamp::Timestamp;
use bandwhichd_agent::utilization::{ConnectionInfo, Utilization};

fn network_v4(a: u8, b: u8, c: u8, d: u8, prefix: u8) -> IpNetwork {
    IpNetwork { address: IpAddress::v4(a, b, c, d), prefix }
}

fn network_v6(groups: [u16; 8], prefix: u8) -> IpNetwork {
    IpNetwork { address: IpAddress::v6(groups), prefix }
}

#[test]
fn should_serialize_network_configuration_v1_measurement_message_json() {
    // given
    let message = Message::NetworkConfigurationV1Measurement(
        NetworkConfigurationV1MeasurementMessage::from(
            MachineId::new("<machine-id>".to_string()),
            Timestamp::new(1_651_850_091, 742_237_280),
            Some(OsRelease::new("<os-release>".to_string())),
            "some-host.example.com".to_string(),
            vec![
                InterfaceV1 {
                    name: "lo".to_string(),
                    is_up: true,
                    networks: vec![
                        network_v4(127, 0, 0, 1, 8),
                        network_v6([0, 0, 0, 0, 0, 0, 0, 1], 128),
                    ],
                },
                InterfaceV1 {
                    name: "enp0s31f6".to_string(),
                    is_up: false,
                    networks: vec![],
                },
                InterfaceV1 {
                    name: "wlp3s0".to_string(),
                    is_up: true,
                    networks: vec![
                        network_v4(172, 18, 195, 209, 16),
                        network_v6([0xfe80, 0, 0, 0, 0x8e71, 0x453d, 0x204d, 0xabf8], 64),
                    ],
                },
                InterfaceV1 {
                    name: "virbr0".to_string(),
                    is_up: false,
                    networks: vec![network_v4(192, 168, 122, 1, 24)],
                },
                InterfaceV1 {
                    name: "docker0".to_string(),
                    is_up: false,
                    networks: vec![
                        network_v4(172, 17, 0, 1, 16),
                        network_v6([0xfe80, 0, 0, 0, 0x0042, 0xa4ff, 0xfef2, 0x4ad4], 64),
                    ],
                },
            ],
            OpenSockets {
                sockets_to_procs: vec![
                    (
                        LocalSocket {
                            ip: IpAddress::v6([0, 0, 0, 0, 0, 0, 0, 0]),
                            port: 37863,
                            protocol: Protocol::Tcp,
                        },
                        "java".to_string(),
                    ),
                    (
                        LocalSocket {
                            ip: IpAddress::v4(0, 0, 0, 0),
                            port: 68,
                            protocol: Protocol::Udp,
                        },
                        "dhclient".to_string(),
                    ),
                ],
            },
        ),
    );

    // when
    let result = message.to_json();

    // then
    let actual: serde_json::Value = serde_json::from_str(result.as_str()).unwrap();
    let expected: serde_json::Value = serde_json::from_str(
        r#"{
        "type": "bandwhichd/measurement/agent-network-configuration/v1",
        "content": {
            "machine_id": "d2c1d575-326e-b00b-c3eb-26ef934301f0",
            "timestamp": "2022-05-06T15:14:51.74223728Z",
            "maybe_os_release": "<os-release>",
            "hostname": "some-host.example.com",
            "interfaces": [
                {
                    "name": "docker0",
                    "is_up": false,
                    "networks": ["172.17.0.1/16", "fe80::42:a4ff:fef2:4ad4/64"]
                },
                {
                    "name": "enp0s31f6",
                    "is_up": false,
                    "networks": []
                },
                {
                    "name": "lo",
                    "is_up": true,
                    "networks": ["127.0.0.1/8", "::1/128"]
                },
                {
                    "name": "virbr0",
                    "is_up": false,
                    "networks": ["192.168.122.1/24"]
                },
                {
                    "name": "wlp3s0",
                    "is_up": true,
                    "networks": ["172.18.195.209/16", "fe80::8e71:453d:204d:abf8/64"]
                }
            ],
            "open_sockets": [
                {
                    "socket_address": "0.0.0.0:68",
                    "protocol": "udp",
                    "process": "dhclient"
                },
                {
                    "socket_address": "[::]:37863",
                    "protocol": "tcp",
                    "process": "java"
                }
            ]
        }
    }"#,
    )
    .unwrap();
    assert_eq!(actual, expected);
}

fn example_utilization() -> Utilization {
    Utilization {
        entries: vec![
            (
                Connection::new(
                    IpAddress::v4(192, 168, 10, 34),
                    5353,
                    IpAddress::v4(192, 168, 10, 87),
                    43254,
                    Protocol::Udp,
                ),
                ConnectionInfo {
                    interface_name: "tun0".to_string(),
                    total_bytes_downloaded: 120,
                    total_bytes_uploaded: 64,
                },
            ),
            (
                Connection::new(
                    IpAddress::v4(127, 0, 0, 1),
                    8080,
                    IpAddress::v4(127, 0, 0, 1),
                    36070,
                    Protocol::Tcp,
                ),
                ConnectionInfo {
                    interface_name: "lo".to_string(),
                    total_bytes_downloaded: 0,
                    total_bytes_uploaded: 13882,
                },
            ),
            (
                Connection::new(
                    IpAddress::v4(127, 0, 0, 1),
                    36070,
                    IpAddress::v4(127, 0, 0, 1),
                    8080,
                    Protocol::Tcp,
                ),
                ConnectionInfo {
                    interface_name: "lo".to_string(),
                    total_bytes_downloaded: 608,
                    total_bytes_uploaded: 0,
                },
            ),
        ],
        start: Timestamp::new(1_651_850_091, 742_237_280),
        stop: Timestamp::new(1_651_850_101, 842_601_560),
    }
}

fn example_duration_text(u: &Utilization) -> String {
    // the reference rendering: the span's seconds as a 32-bit float
    let (secs, nanos) = u.start.duration_until(&u.stop);
    time::Duration::new(secs as i64, nanos as i32)
        .as_seconds_f32()
        .to_string()
}

#[test]
fn should_serialize_network_utilization_v1_measurement_message_json() {
    // given
    let utilization = example_utilization();
    let duration_text = example_duration_text(&utilization);
    let message = Message::NetworkUtilizationV1Measurement(
        NetworkUtilizationV1MeasurementMessage::from(
            MachineId::new("<machine-id>".to_string()),
            utilization,
            duration_text,
        ),
    );

    // when
    let result = message.to_json();

    // then
    let actual: serde_json::Value = serde_json::from_str(result.as_str()).unwrap();
    let expected: serde_json::Value = serde_json::from_str(
        r#"{
        "type": "bandwhichd/measurement/agent-network-utilization/v1",
        "content": {
            "machine_id": "d2c1d575-326e-b00b-c3eb-26ef934301f0",
            "timeframe": "2022-05-06T15:14:51.74223728Z/PT10.100365S",
            "connections": [
                {
                    "interface_name": "lo",
                    "local_socket_address": "127.0.0.1:8080",
                    "remote_socket_address": "127.0.0.1:36070",
                    "protocol": "tcp",
                    "received": "608",
                    "sent": "0"
                },
                {
                    "interface_name": "lo",
                    "local_socket_address": "127.0.0.1:36070",
                    "remote_socket_address": "127.0.0.1:8080",
                    "protocol": "tcp",
                    "received": "0",
                    "sent": "13882"
                },
                {
                    "interface_name": "tun0",
                    "local_socket_address": "192.168.10.87:43254",
                    "remote_socket_address": "192.168.10.34:5353",
                    "protocol": "udp",
                    "received": "120",
                    "sent": "64"
                }
            ]
        }
    }"#,
    )
    .unwrap();
    assert_eq!(actual, expected);
}

#[test]
fn encoding_does_not_depend_on_entry_order() {
    // the same window contents in two different entry orders encode to
    // byte-identical JSON
    let machine_id = MachineId::new("<machine-id>".to_string());
    let forward = example_utilization();
    let mut reversed = example_utilization();
    reversed.entries.reverse();
    let duration_text = example_duration_text(&forward);

    let a = Message::NetworkUtilizationV1Measurement(NetworkUtilizationV1MeasurementMessage::from(
        machine_id,
        forward,
        duration_text.clone(),
    ))
    .to_json();
    let b = Message::NetworkUtilizationV1Measurement(NetworkUtilizationV1MeasurementMessage::from(
        machine_id,
        reversed,
        duration_text,
    ))
    .to_json();
    assert_eq!(a, b);
}

#[test]
fn configuration_encoding_does_not_depend_on_socket_table_order() {
    let table = |flip: bool| {
        let mut pairs = vec![
            (
                LocalSocket {
                    ip: IpAddress::v6([0, 0, 0, 0, 0, 0, 0, 0]),
                    port: 37863,
                    protocol: Protocol::Tcp,
                },
                "java".to_string(),
            ),
            (
                LocalSocket {
                    ip: IpAddress::v4(0, 0, 0, 0),
                    port: 68,
                    protocol: Protocol::Udp,
                },
                "dhclient".to_string(),
            ),
        ];
        if flip {
            pairs.reverse();
        }
        OpenSockets { sockets_to_procs: pairs }
    };
    let build = |open_sockets: OpenSockets| {
        Message::NetworkConfigurationV1Measurement(NetworkConfigurationV1MeasurementMessage::from(
            MachineId::new("<machine-id>".to_string()),
            Timestamp::new(1_651_850_091, 742_237_280),
            None,
            "host".to_string(),
            vec![],
            open_sockets,
        ))
        .to_json()
    };
    assert_eq!(build(table(false)), build(table(true)));
}

#[test]
fn encoding_the_same_message_twice_is_byte_identical() {
    let utilization = example_utilization();
    let duration_text = example_duration_text(&utilization);
    let message = Message::NetworkUtilizationV1Measurement(
        NetworkUtilizationV1MeasurementMessage::from(
            MachineId::new("<machine-id>".to_string()),
            utilization,
            duration_text,
        ),
    );
    assert_eq!(message.to_json(), message.to_json());
}

#[test]
fn strings_are_escaped_as_json_demands() {
    let message = Message::NetworkConfigurationV1Measurement(
        NetworkConfigurationV1MeasurementMessage::from(
            MachineId::new("<machine-id>".to_string()),
            Timestamp::new(0, 0),
            None,
            "a \"quoted\\name\"\nwith\tcontrol\u{1}chars".to_string(),
            vec![],
            OpenSockets { sockets_to_procs: vec![] },
        ),
    );
    let encoded = message.to_json();
    let value: serde_json::Value = serde_json::from_str(encoded.as_str()).unwrap();
    assert_eq!(
        value["content"]["hostname"].as_str().unwrap(),
        "a \"quoted\\name\"\nwith\tcontrol\u{1}chars"
    );
    assert_eq!(value["content"]["maybe_os_release"], serde_json::Value::Null);
    assert_eq!(
        value["content"]["timestamp"].as_str().unwrap(),
        "1970-01-01T00:00:00Z"
    );
}

#[test]
fn an_empty_window_encodes_an_empty_connection_list() {
    let utilization = Utilization::new(Timestamp::new(1_651_850_091, 0));
    let message = Message::NetworkUtilizationV1Measurement(
        NetworkUtilizationV1MeasurementMessage::from(
            MachineId::new("<machine-id>".to_string()),
            utilization,
            "0".to_string(),
        ),
    );
    let value: serde_json::Value = serde_json::from_str(message.to_json().as_str()).unwrap();
    assert_eq!(
        value["content"]["timeframe"].as_str().unwrap(),
        "2022-05-06T15:14:51Z/PT0S"
    );
    assert_eq!(value["content"]["connections"].as_array().unwrap().len(), 0);
}
