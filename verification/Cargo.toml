[package]
name = "nbes"
version = "0.1.0"
edition = "2021"
publish = false

[dependencies]
anyhow = "1"
clap = { version = "4", features = ["derive"] }
env_logger = "0.11"
futures = "0.3"
hyper-util = { version = "0.1", features = ["tokio"] }
log = "0.4"
prost = "0.14"
prost-types = "0.14"
rand = "0.10"
serde = { version = "1", features = ["derive"] }
serde_yaml_ng = "0.10"
tokio = { version = "1", features = ["full"] }
tokio-stream = { version = "0.1", features = ["net", "sync"] }
tonic = { version = "0.14", features = ["transport", "tls-ring", "tls-native-roots"] }
tonic-prost = "0.14"
tower = { version = "0.5", features = ["util"] }
url = "2"
