[package]
name = "async-rdma"
version = "0.1.0"
edition = "2021"
publish = false

[dependencies]
async-bincode = "0.6"
bincode = "1.3"
futures = "0.3"
libc = "0.2"
lockfree-cuckoohash = "0.1"
rand = "0.8"
rdma-sys = "*"
serde = { version = "1", features = ["derive"] }
tokio = { version = "1", features = ["full"] }
tracing = "0.1"
