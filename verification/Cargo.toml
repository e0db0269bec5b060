[package]
name = "ms_graph_auth"
version = "0.1.0"
edition = "2021"
publish = false

[dependencies]
serde_json = "=1.0.151"
url = "=2.5.8"
rand = "=0.10.3"
serde = { version = "=1.0.229", features = ["derive"] }
reqwest = { version = "=0.13.5", default-features = false, features = ["form"] }
tokio = { version = "=1.53.2", features = ["macros", "rt-multi-thread"] }
chrono = "=0.4.45"
log = "=0.4.34"
env_logger = "=0.11.11"
