[package]
name = "libre_pvz"
version = "0.1.0"
edition = "2021"
publish = false

[dependencies]
anyhow = "1"
bincode = { version = "2", features = ["derive", "serde"] }
bitvec = "1"
clap = { version = "4", features = ["derive"] }
fern = { version = "0.6", features = ["colored"] }
flate2 = "1"
itertools = "0.12"
log = "0.4"
serde = { version = "1", features = ["derive"] }
serde_json = "1"
serde_yaml = "0.9"
thiserror = "1"
tracing = "0.1"
