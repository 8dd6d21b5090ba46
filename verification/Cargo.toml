[package]
name = "hyperlight-js"
version = "0.1.0"
edition = "2021"
publish = false

[dependencies]
anyhow = "=1.0.104"
fn-traits = "=0.2.0"
hashbrown = "=0.17.1"
hyperlight-host = { version = "=0.18.0", default-features = false, features = ["kvm", "crashdump"] }
napi = { version = "=3.16.1", features = ["tokio_rt", "serde-json"] }
napi-derive = "=3.7.0"
pyo3 = { version = "=0.30.1", features = ["abi3-py39"] }
rquickjs = { version = "=0.14.0", features = ["loader", "macro"] }
serde = { version = "=1.0.229", features = ["derive"] }
serde_json = "=1.0.154"
spin = "=0.12.3"
tokio = { version = "=1.54.1", features = ["rt", "sync"] }
tracing = "=0.1.44"
