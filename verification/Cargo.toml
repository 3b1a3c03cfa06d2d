[package]
name = "phantun"
version = "0.8.0"
edition = "2021"
publish = false

[dependencies]
clap = { version = "4", features = ["cargo"] }
fake-tcp = "*"
log = "0.4"
nix = { version = "*", features = ["net", "socket", "uio"] }
num_cpus = "1"
pretty_env_logger = "0.5"
socket2 = { version = "*", features = ["all"] }
tokio = { version = "1", features = ["full"] }
tokio-tun = "*"
tokio-util = "0.7"
uuid = { version = "1", features = ["v4"] }
