[package]
name = "dpist"
version = "0.1.0"
edition = "2021"
publish = false

[dependencies]
anyhow = "1"
clap = { version = "4", features = ["derive"] }
crossterm = "*"
derive_more = { version = "*", features = ["display"] }
etherparse = "*"
pcap-file = "2"
rand = "*"
ratatui = "*"
serde = { version = "1", features = ["derive"] }
toml = "*"
