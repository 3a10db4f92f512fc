[package]
name = "grideye_terminal"
version = "0.1.0"
edition = "2021"
publish = false

[dependencies]
bytes = "1"
chrono = "0.4"
uuid = { version = "1", features = ["v4"] }
log = "0.4"
simplelog = "0.12"
toml-cfg = "0.1"
ratatui = "0.24"
crossterm = "0.27"
rumqttc = "0.23"
