[package]
name = "channels-console"
version = "0.1.0"
edition = "2021"
publish = false

[dependencies]
clap = { version = "=4.6.7", features = ["derive"] }
crossbeam-channel = "=0.5.17"
crossterm = "=0.29.0"
eyre = "=0.6.14"
futures-channel = { version = "=0.3.34", features = ["sink"] }
futures-util = { version = "=0.3.34", features = ["sink"] }
prettytable-rs = "=0.10.0"
ratatui = "=0.30.2"
serde = { version = "=1.0.229", features = ["derive"] }
serde_json = "=1.0.154"
tiny_http = "=0.12.0"
tokio = { version = "=1.54.1", features = ["rt-multi-thread", "sync", "time", "macros"] }
ureq = { version = "=3.5.0", default-features = false, features = ["json"] }
