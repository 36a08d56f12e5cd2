[package]
name = "bottom"
version = "0.1.0"
edition = "2021"
publish = false

[dependencies]
sysinfo = "0.9"
tui = { version = "0.7", default-features = false }
heim = { version = "0.0.11", default-features = false, features = ["disk"] }
heim-common = "0.0.11"
