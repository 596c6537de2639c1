[package]
name = "sysmon"
version = "0.1.0"
edition = "2021"
publish = false

[dependencies]
anyhow = "1"
bollard = "*"
futures-util = "0.3"
sysinfo = "0.30"
tokio = { version = "1", features = ["rt-multi-thread", "time"] }
