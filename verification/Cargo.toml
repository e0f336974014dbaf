[package]
name = "container_monitor"
version = "0.1.0"
edition = "2021"
publish = false

[dependencies]
anyhow = "1"
bollard = "0.15"
crossterm = "0.25"
futures = "0.3"
tokio = { version = "1", features = ["full"] }
tui = "0.19"
