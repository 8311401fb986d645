[package]
name = "bridge_attestation"
version = "0.1.0"
edition = "2021"
publish = false

[dependencies]
bytes = "=1.12.1"
clarity = "=1.7.0"
cosmos-sdk-proto-althea = "=0.22.0"
deep_space = "=2.33.1"
futures = "=0.3.34"
log = "=0.4.34"
prost = "=0.13.5"
serde_json = "=1.0.154"
tokio = { version = "=1.54.1", features = ["time"] }
web30 = "=1.15.0"
