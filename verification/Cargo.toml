[package]
name = "anx_core"
version = "0.1.0"
edition = "2021"
publish = false

[dependencies]
md5 = "*"
num_cpus = "*"
serde = { version = "*", features = ["derive"] }
toml = "*"
thiserror = "*"
log = "*"
env_logger = "*"
