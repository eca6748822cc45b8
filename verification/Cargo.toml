[package]
name = "btmgmt"
version = "0.1.0"
edition = "2021"
publish = false

[dependencies]
anyhow = "=1.0.104"
libc = "=0.2.190"
rustix = { version = "=1.1.5", features = ["net", "time"] }
