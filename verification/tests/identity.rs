use std::str::FromStr;

use bandwhichd_agent::agent_id::AgentId;
use bandwhichd_agent::machine_id::{calculate_secure_uuid, MachineId};
use bandwhichd_agent::uuid_value::UuidValue;

#[test]
fn should_have_raw_value() {
    // given
    let raw_value = UuidValue::new(
        uuid::Uuid::from_str("5d58f6c1-16c1-4b69-871b-0732e8bd301d")
            .unwrap()
            .as_u128(),
    );
    let agent_id = AgentId::new(raw_value);

    // when
    let result = agent_id.raw_value();

    // then
    assert_eq!(result, raw_value);
}

#[test]
fn should_have_secure_uuid() {
    // given
    let machine_id = MachineId::new("<machine-id>".to_string());

    // when
    let result = machine_id.secure_uuid();

    // then
    assert_eq!(result, calculate_secure_uuid("<machine-id>"));
}

#[test]
fn machine_id_same_secret_same_uuid() {
    let a = MachineId::new("<machine-id>".to_string());
    let b = MachineId::new("<machine-id>".to_string());
    assert_eq!(a.secure_uuid(), b.secure_uuid());
}

#[test]
fn machine_id_different_secret_different_uuid() {
    let a = MachineId::new("<machine-id>".to_string());
    let b = MachineId::new("<other-machine-id>".to_string());
    assert_ne!(a.secure_uuid(), b.secure_uuid());
}

#[test]
fn machine_id_matches_sha3_256_digest_truncated_to_16_bytes() {
    // the hyphenated form of the first 16 bytes of SHA3-256("<machine-id>")
    let machine_id = MachineId::new("<machine-id>".to_string());
    assert_eq!(
        machine_id.secure_uuid().hyphenated(),
        "d2c1d575-326e-b00b-c3eb-26ef934301f0".to_string()
    );
}

#[test]
fn agent_id_default_is_version_4_rfc_variant() {
    let agent_id = AgentId::default();
    let v = agent_id.raw_value().value;
    assert_eq!((v >> 76) & 0xf, 4);
    assert_eq!((v >> 62) & 0x3, 2);
}

#[test]
fn agent_id_defaults_are_distinct() {
    let a = AgentId::default();
    let b = AgentId::default();
    assert_ne!(a.raw_value(), b.raw_value());
}

#[test]
fn uuid_value_hyphenated_keeps_leading_zeros() {
    let u = UuidValue::new(0x00000001_0002_0003_0004_000000000005u128);
    assert_eq!(
        u.hyphenated(),
        "00000001-0002-0003-0004-000000000005".to_string()
    );
}

#[test]
fn uuid_value_hyphenated_round_trips_through_uuid() {
    let u = UuidValue::new(0x5d58f6c1_16c1_4b69_871b_0732e8bd301du128);
    let text = u.hyphenated();
    assert_eq!(text, "5d58f6c1-16c1-4b69-871b-0732e8bd301d".to_string());
    assert_eq!(uuid::Uuid::from_str(&text).unwrap().as_u128(), u.value);
}
