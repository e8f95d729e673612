[package]
name = "dvn"
version = "0.1.0"
edition = "2021"
publish = false

[dependencies]
ethers-core = "2.0.14"
ethers-signers = { version = "2.0.14", default-features = false }
ic-cdk = "0.16"
ic-cdk-timers = "0.10"
futures = "0.3"
serde = { version = "1", features = ["derive"] }
serde_json = { version = "1", features = ["raw_value"] }
blake3 = "1"
