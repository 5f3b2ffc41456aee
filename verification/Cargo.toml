[package]
name = "leaflash"
version = "0.1.0"
edition = "2021"
publish = false

[dependencies]
anyhow = "1"
clap = { version = "4", features = ["derive"] }
crc32fast = "1"
crossterm = "0.28"
fastrand = "2"
gptman = "1"
indicatif = "*"
ratatui = { version = "0.29", features = ["unstable-widget-ref"] }
ratatui-explorer = "0.2"
rockusb = { version = "*", features = ["libusb"] }
