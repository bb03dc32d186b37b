[package]
name = "debian_bridge"
version = "0.1.0"
edition = "2021"
publish = false

[dependencies]
clap = "=2.34.0"
colorful = "=0.3.2"
dirs = "=7.0.0"
freedesktop-desktop-entry = "=0.8.3"
futures = "=0.3.34"
log = "=0.4.34"
pretty_env_logger = "=0.5.0"
serde_json = "=1.0.151"
shiplift = "=0.7.0"
tokio = { version = "=1.53.2", features = ["rt-multi-thread"] }
xdg = "=3.0.0"
