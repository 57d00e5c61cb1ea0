[package]
name = "sshchat_core"
version = "0.1.0"
edition = "2021"
publish = false

[dependencies]
russh = "=0.64.1"
ed25519-dalek = { version = "=3.0.0", features = ["rand_core"] }
rand = "=0.10.3"
tokio = { version = "=1.53.2", features = ["full"] }
async-trait = "=0.1.92"
log = "=0.4.34"
env_logger = "=0.11.11"
