[package]
name = "mdns_repeater"
version = "0.1.0"
edition = "2021"
publish = false

[dependencies]
regex = "=1.13.1"
simple-dns = "=0.12.0"
clap = { version = "=4.6.7", features = ["derive"] }
serde = { version = "=1.0.229", features = ["derive"] }
serde_json = "=1.0.151"
socket2 = { version = "=0.6.5", features = ["all"] }
pnet = "=0.35.0"
tracing = "=0.1.44"
tracing-subscriber = { version = "=0.3.23", features = ["env-filter"] }
color-eyre = "=0.6.5"
