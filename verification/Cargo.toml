[package]
name = "iot_edge_spiffe"
version = "0.1.0"
edition = "2021"
publish = false

[dependencies]
base64 = "0.13"
openssl = "0.10"
url = "2"
regex = "1"
serde = { version = "1", features = ["derive"] }
serde_json = "1"
toml = "0.5"
log = "0.4"
thiserror = "1"
async-trait = "0.1"
tokio = { version = "1", features = ["rt-multi-thread", "macros", "fs", "time", "sync"] }
k8s-openapi = { version = "0.14", features = ["v1_22"] }
cgroups-rs = "0.2"
