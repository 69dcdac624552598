use bandwhichd_agent::ip::{IpAddress, IpNetwork};
use bandwhichd_agent::os::{
    collect_errors, eperm_message, startup_decision, usable_interface, GetInterfaceErrorKind,
    StartupDecision,
};
use bandwhichd_agent::publish::InterfaceV1;

#[test]
fn permission_errors_collect_into_the_remediation_hint() {
    let outcomes = vec![
        Some(GetInterfaceErrorKind::PermissionError("eth0".to_string())),
        None,
        Some(GetInterfaceErrorKind::PermissionError("wlan0".to_string())),
    ];
    let expected = format!("\n\neth0, wlan0: {}", eperm_message());
    assert_eq!(collect_errors(&outcomes), expected);
}

#[test]
fn other_errors_collect_on_their_own() {
    let outcomes = vec![
        Some(GetInterfaceErrorKind::OtherError("eth0: Unsupported interface type".to_string())),
        Some(GetInterfaceErrorKind::OtherError("tun0: broken".to_string())),
    ];
    let expected = "\n\n OtherError(\"eth0: Unsupported interface type\") \n OtherError(\"tun0: broken\")";
    assert_eq!(collect_errors(&outcomes), expected.to_string());
}

#[test]
fn mixed_errors_list_the_others_after_the_hint() {
    let outcomes = vec![
        Some(GetInterfaceErrorKind::OtherError("tun0: broken".to_string())),
        Some(GetInterfaceErrorKind::PermissionError("eth0".to_string())),
    ];
    let expected = format!(
        "\n\neth0: {} \nAdditional Errors: \n OtherError(\"tun0: broken\")",
        eperm_message()
    );
    assert_eq!(collect_errors(&outcomes), expected);
}

#[test]
fn error_rendering_quotes_the_detail() {
    let e = GetInterfaceErrorKind::OtherError("boom".to_string());
    assert_eq!(e.debug_string(), "OtherError(\"boom\")".to_string());
    let e = GetInterfaceErrorKind::PermissionError("eth\"0".to_string());
    assert_eq!(e.debug_string(), "PermissionError(\"eth\\\"0\")".to_string());
}

#[test]
fn startup_proceeds_on_the_channels_that_opened() {
    let outcomes = vec![
        Some(GetInterfaceErrorKind::PermissionError("eth0".to_string())),
        None,
        Some(GetInterfaceErrorKind::OtherError("tun0: broken".to_string())),
        None,
    ];
    match startup_decision(&outcomes) {
        StartupDecision::Proceed(opened) => assert_eq!(opened, vec![1, 3]),
        StartupDecision::Fail(msg) => panic!("unexpected failure: {}", msg),
    }
}

#[test]
fn startup_fails_with_the_collected_errors_when_nothing_opened() {
    let outcomes = vec![Some(GetInterfaceErrorKind::PermissionError("eth0".to_string()))];
    match startup_decision(&outcomes) {
        StartupDecision::Proceed(_) => panic!("should not proceed"),
        StartupDecision::Fail(msg) => {
            assert_eq!(msg, format!("\n\neth0: {}", eperm_message()));
        },
    }
}

#[test]
fn startup_fails_plainly_when_there_was_nothing_to_try() {
    let outcomes: Vec<Option<GetInterfaceErrorKind>> = vec![];
    match startup_decision(&outcomes) {
        StartupDecision::Proceed(_) => panic!("should not proceed"),
        StartupDecision::Fail(msg) => {
            assert_eq!(msg, "Failed to find any network interface to listen on.".to_string());
        },
    }
}

#[test]
fn an_interface_is_usable_when_up_and_addressed() {
    let up_addressed = InterfaceV1 {
        name: "eth0".to_string(),
        is_up: true,
        networks: vec![IpNetwork { address: IpAddress::v4(10, 0, 0, 1), prefix: 24 }],
    };
    let up_unaddressed = InterfaceV1 { name: "eth1".to_string(), is_up: true, networks: vec![] };
    let down_addressed = InterfaceV1 {
        name: "eth2".to_string(),
        is_up: false,
        networks: vec![IpNetwork { address: IpAddress::v4(10, 0, 0, 2), prefix: 24 }],
    };
    assert!(usable_interface(&up_addressed));
    assert!(!usable_interface(&up_unaddressed));
    assert!(!usable_interface(&down_addressed));
}
