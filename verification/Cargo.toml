[package]
name = "router_flow"
version = "0.1.0"
edition = "2021"
publish = false

[dependencies]
chrono = { version = "=0.4.45", features = ["serde"] }
rand = "=0.8.8"
uuid = { version = "=1.29.0", features = ["v4", "serde"] }
tokio = { version = "=1.54.1", features = ["full"] }
dashmap = "=6.2.1"
dotenvy = "=0.15.7"
tracing = "=0.1.44"
tracing-subscriber = { version = "=0.3.23", features = ["env-filter", "fmt"] }
crossterm = "=0.28.1"
ratatui = "=0.29.0"
hyper = { version = "=0.14.32", features = ["server", "http1", "tcp", "runtime"] }
serde = { version = "=1.0.229", features = ["derive"] }
