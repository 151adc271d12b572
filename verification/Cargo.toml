[package]
name = "image_probe"
version = "0.1.0"
edition = "2021"
publish = false

[dependencies]
anyhow = "=1.0.104"
clap = "=4.6.7"
dkregistry = { version = "=0.5.0", default-features = false, features = ["reqwest-rustls"] }
env_logger = "=0.11.11"
log = "=0.4.34"
tokio = { version = "=1.53.2", features = ["rt-multi-thread"] }
