//! Host-resident network measurement agent: a verified core for turning
//! captured link-layer frames into per-connection byte counts, aggregating
//! them into reporting windows, encoding measurement messages as
//! deterministic JSON, and deciding when sustained publish failure or a
//! stalled publisher must abort the process.

pub mod agent_id;
pub mod bytes;
pub mod connection;
pub mod determinism;
pub mod ip;
pub mod json;
pub mod machine_id;
pub mod os;
pub mod os_release;
pub mod publish;
pub mod publish_legacy;
pub mod publisher;
pub mod sniffer;
pub mod text;
pub mod timestamp;
pub mod utilization;
pub mod uuid_value;
pub mod watchdog;
