[package]
name = "edge_proxy"
version = "0.1.0"
edition = "2021"
publish = false

[dependencies]
anyhow = "1"
chrono = "0.4"
fern = "0.6"
hyper = { version = "0.14", features = ["full"] }
hyper-rustls = "0.22"
log = "0.4"
routerify = "3"
tokio = { version = "1", features = ["full"] }
