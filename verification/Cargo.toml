[package]
name = "sn_core"
version = "0.1.0"
edition = "2021"
publish = false

[dependencies]
blsttc = "=8.0.2"
bytes = "=1.12.1"
crdts = "=7.3.2"
curve25519-dalek-ng = "=4.1.1"
futures = "=0.3.34"
hex = "=0.4.3"
libp2p = { version = "=0.57.1", default-features = false, features = ["kad"] }
rand = "=0.8.8"
serde = { version = "=1.0.229", features = ["derive"] }
sn_dbc = { version = "=17.0.1", features = ["serdes"] }
tokio = { version = "=1.54.1", default-features = false, features = ["sync", "time", "rt"] }
xor_name = "=5.0.0"
