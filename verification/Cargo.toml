[package]
name = "run_in_roblox"
version = "0.1.0"
edition = "2021"
publish = false

[dependencies]
anyhow = "=1.0.104"
async-channel = "=2.5.0"
clap = { version = "=4.6.7", features = ["derive"] }
colored = "=3.1.1"
env_logger = "=0.11.11"
fs-err = "=3.3.2"
indicatif = "=0.18.6"
log = "=0.4.34"
roblox_install = "=1.2.0"
tokio = { version = "=1.53.2", features = ["io-util", "macros", "net", "rt-multi-thread", "signal", "sync", "time"] }
