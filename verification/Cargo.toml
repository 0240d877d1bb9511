[package]
name = "macgyver_rs"
version = "0.1.0"
edition = "2021"
publish = false

[dependencies]
base64 = "0.21"
bytes = "1"
clap = { version = "4", features = ["derive"] }
colored = "2"
futures = "0.3"
gitlab = "*"
k8s-openapi = { version = "0.18", features = ["v1_26"] }
kube = { version = "0.82", default-features = false, features = ["client", "rustls-tls"] }
reqwest = { version = "0.11", default-features = false }
serde_yaml = "0.9"
tokio = { version = "1", features = ["full"] }
