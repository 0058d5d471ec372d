[package]
name = "kagayaku"
version = "0.1.0"
edition = "2021"
publish = false

[dependencies]
anyhow = "=1.0.104"
ashpd = { version = "=0.13.13", features = ["backend", "screencast"] }
async-channel = "=2.5.0"
async-global-executor = "=3.1.0"
async-lock = "=3.4.2"
async-trait = "=0.1.92"
futures-util = "=0.3.34"
tracing = "=0.1.44"
zbus = "=5.19.0"
