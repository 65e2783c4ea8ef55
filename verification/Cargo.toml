[package]
name = "sysdash"
version = "0.1.0"
edition = "2021"
publish = false

[dependencies]
clap = { version = "4", features = ["derive"] }
crossterm = "0.27"
prettytable-rs = "0.10"
sysinfo = "0.29"
