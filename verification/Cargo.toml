[package]
name = "avahi_tui"
version = "0.1.0"
edition = "2021"
publish = false

[dependencies]
regex = "1"
clap = "4"
color-eyre = "0.6"
ratatui = "*"
crossterm = "*"
tokio = { version = "1", features = ["rt-multi-thread", "macros", "time", "sync"] }
tokio-util = "0.7"
dns-sd-native = "*"
