[package]
name = "resolvsync"
version = "0.1.0"
edition = "2021"
publish = false

[dependencies]
anyhow = "1"
dbus = "0.9"
env_logger = "*"
log = "0.4"
nix = { version = "*", features = ["user", "fs"] }
signal-hook = "0.3"
syslog = "*"
