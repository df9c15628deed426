[package]
name = "wifi_rssi"
version = "0.1.0"
edition = "2021"
publish = false

[dependencies]
ratatui = "0.29"
crossterm = "0.28"
color-eyre = "0.6"
tokio = { version = "1", features = ["process", "rt", "macros"] }
wifi_scan = "*"
windows-sys = { version = "0.52", features = ["Win32_Foundation", "Win32_NetworkManagement_WiFi"] }
