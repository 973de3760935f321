[package]
name = "cmk_agent_ctl"
version = "0.1.0"
edition = "2021"
publish = false

[dependencies]
anyhow = "1"
flexi_logger = "0.22"
log = "0.4"
nix = { version = "0.26", features = ["user"] }
serde = { version = "1", features = ["derive"] }
serde_json = { version = "1", features = ["preserve_order"] }
structopt = "0.3"
