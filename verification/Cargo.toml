[package]
name = "qp2p"
version = "0.28.1"
edition = "2021"
publish = false

[dependencies]
bincode = "=1.3.3"
tiny-keccak = { version = "=2.0.2", features = ["sha3"] }
crc = "=1.8.1"
serde = { version = "=1.0.229", features = ["derive"] }
bytes = "=1.12.1"
quinn = "=0.8.5"
tokio = { version = "=1.54.1", features = ["sync", "rt", "time", "macros"] }
thiserror = "=1.0.69"
dirs-next = "=2.0.0"
futures = "0.3"
