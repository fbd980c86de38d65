[package]
name = "rs_bar"
version = "0.1.0"
edition = "2021"
publish = false

[dependencies]
uuid = { version = "=1.29.0", features = ["v5"] }
chrono = "=0.4.45"
serde_json = "=1.0.154"
libc = "=0.2.191"
linicon = "=2.3.0"
niri-ipc = "=26.4.0"
png = "0.17"
