[package]
name = "onekey_run"
version = "0.1.0"
edition = "2021"
publish = false

[dependencies]
clap = { version = "4", features = ["derive"] }
crossterm = "0.28"
ctrlc = "3"
nix = { version = "0.29", features = ["signal", "process"] }
ratatui = "0.29"
serde = { version = "1", features = ["derive"] }
serde_json = "1"
serde_yaml = "0.9"
windows-sys = { version = "0.59", features = ["Win32_Foundation", "Win32_System_Threading"] }
