[package]
name = "netscan"
version = "0.1.0"
edition = "2021"
publish = false

[dependencies]
anyhow = "1"
pcap = "2"
ratatui = "0.29"
tokio = { version = "1", features = ["full"] }
