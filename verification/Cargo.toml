[package]
name = "k8s_node_server"
version = "0.1.0"
edition = "2021"
publish = false

[dependencies]
rust_xlsxwriter = "=0.102.0"
actix = "=0.13.5"
actix-web = { version = "=4.18.1", default-features = false, features = ["macros", "ws"] }
actix-web-actors = "=4.3.1"
actix-files = "=0.7.3"
kube = { version = "=5.0.0", default-features = false, features = ["client", "config", "rustls-tls"] }
k8s-openapi = { version = "=0.29.0", features = ["latest"] }
tokio = { version = "=1.54.1", features = ["rt-multi-thread", "macros"] }
serde = { version = "=1.0.229", features = ["derive"] }
serde_json = "=1.0.154"
reqwest = { version = "=0.12.28", default-features = false, features = ["json", "rustls-tls"] }
log = "=0.4.35"
env_logger = "=0.11.11"
