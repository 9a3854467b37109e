[package]
name = "sysmon"
version = "0.1.0"
edition = "2021"
publish = false

[dependencies]
image = "=0.25.10"
artem = { version = "=3.0.0", default-features = false }
serde = { version = "=1.0.229", features = ["derive"] }
serde_json = "=1.0.154"
anyhow = "1"
clap = { version = "4", features = ["derive"] }
crossterm = "0.28"
ratatui = "0.29"
ratatui-image = "8"
dirs = "6"
libc = "0.2"
nvml-wrapper = "0.11"
procfs = "0.17"
reqwest = { version = "0.12", default-features = false, features = ["blocking", "rustls-tls"] }
rustfft = "6"
