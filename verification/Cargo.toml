[package]
name = "proxy_load_balancer"
version = "0.1.0"
edition = "2021"
publish = false

[dependencies]
hyper = { version = "1", features = ["http1", "server", "client"] }
hyper-util = { version = "0.1", features = ["tokio"] }
http-body-util = "0.1"
tokio = { version = "1", features = ["rt-multi-thread", "macros", "net", "sync"] }
serde_json = "1"
thiserror = "1"
color-eyre = "0.6"
tracing = "0.1"
