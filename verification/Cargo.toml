[package]
name = "bgp_livemap"
version = "0.1.0"
edition = "2021"
publish = false

[dependencies]
ipnet = "=2.12.2"
sled = "=0.34.7"
uuid = { version = "=1.29.0", features = ["v4"] }
lru = "=0.19.0"
bgpkit-commons = "=0.14.2"
bgpkit-parser = { version = "=0.23.0", features = ["rislive"] }
serde = { version = "=1.0.229", features = ["derive"] }
serde_json = "=1.0.154"
parking_lot = "=0.13.0"
log = "=0.4.35"
env_logger = "=0.11.11"
chrono = "=0.4.45"
maxminddb = "=0.32.0"
tokio = { version = "=1.54.1", features = ["full"] }
tokio-tungstenite = "=0.30.0"
futures-util = "=0.3.34"
bytes = "=1.12.1"
clap = { version = "=4.6.7", features = ["derive"] }
anyhow = "=1.0.104"
rusqlite = { version = "=0.40.2", features = ["bundled"] }
r2d2 = "=0.8.10"
r2d2_sqlite = "=0.35.0"
rdkafka = "*"
