[package]
name = "bandwhichd_agent"
version = "0.1.0"
edition = "2021"
publish = false

[dependencies]
sha3 = "0.10"
time = { version = "0.3", features = ["formatting"] }
uuid = { version = "1", features = ["v4"] }
pnet = "0.34"
gethostname = "0.4"
libsystemd = "0.7"
reqwest = { version = "0.11", default-features = false, features = ["blocking"] }
ipnetwork = "0.20"

[dev-dependencies]
serde_json = "1"
