[package]
name = "oxidewm"
version = "0.1.0"
edition = "2021"
publish = false

[dependencies]
x11rb = "0.11"
serde = { version = "1", features = ["derive"] }
serde_yaml = "0.9"
serde_json = "1"
log = "0.4"
log4rs = "1.2"
syslog = "6"
thiserror = "1"
zbus = "3"
async-std = "1"
clap = { version = "4", features = ["derive"] }
itertools = "0.10"
