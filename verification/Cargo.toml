[package]
name = "wasmdome"
version = "0.1.0"
edition = "2021"
publish = false

[dependencies]
base64 = "=0.13.1"
nkeys = "=0.4.5"
eventsourcing = "=0.1.5"
eventsourcing-derive = "=0.1.3"
serde = { version = "=1.0.229", features = ["derive"] }
serde_json = "=1.0.154"
chrono = { version = "=0.4.45", features = ["serde"] }
log = "=0.4.35"
env_logger = "=0.11.11"
nats = "=0.26.0"
redis = "=1.8.1"
nuid = "=0.6.0"
uuid = { version = "=1.29.0", features = ["v4"] }
crossbeam-channel = "=0.5.17"
structopt = "=0.3.26"
prettytable-rs = "=0.10.0"
wascc-actor = "=0.7.4"
wascc-codec = "=0.9.1"
rmp = "=0.8.10"
