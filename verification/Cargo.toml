[package]
name = "connect_engine"
version = "0.1.0"
edition = "2021"
publish = false

[dependencies]
anyhow = "=1.0.104"
bson = "2"
log = "=0.4.34"
mongodb = "=2.8.2"
rocket = { version = "=0.5.2", features = ["json"] }
serde = { version = "=1.0.229", features = ["derive"] }
serde_json = "=1.0.154"
stdweb = "=0.4.20"
web_logger = "=0.2.0"
yew = { version = "=0.14.3", features = ["std_web"] }
yew-router = { version = "=0.11.0", features = ["std_web"] }
