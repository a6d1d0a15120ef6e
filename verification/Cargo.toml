[package]
name = "glow"
version = "0.1.0"
edition = "2021"
publish = false

[dependencies]
chrono = { version = "=0.4.45", features = ["serde"] }
rand = "=0.10.3"
serde = { version = "=1.0.229", features = ["derive"] }
serde_json = "=1.0.151"
tokio = { version = "=1.53.2", features = ["full"] }
ureq = { version = "=3.4.2", features = ["json"] }
log = "=0.4.34"
env_logger = "=0.11.11"
rusqlite = { version = "=0.40.2", features = ["bundled"] }
rppal = { version = "=0.22.1", features = ["hal"] }
blinkt = "=0.7.1"
am2320 = "=0.2.0"
tplinker = "=0.4.4"
futures = "=0.3.34"
