[package]
name = "docwatch"
version = "0.1.0"
edition = "2021"
publish = false

[dependencies]
actix-files = "0.6"
actix-web = "4"
actix-web-lab = "*"
env_logger = "0.11"
log = "0.4"
notify = "*"
tokio = { version = "1", features = ["sync", "macros", "rt-multi-thread", "time"] }
