[package]
name = "socks5_proxy"
version = "0.1.0"
edition = "2021"
publish = false

[dependencies]
byteorder = "1"
clap = { version = "3", features = ["derive"] }
log = "0.4"
pretty_env_logger = "0.4"
serde = "1"
serde_derive = "1"
tokio = { version = "1", features = ["net", "io-util", "macros", "rt-multi-thread"] }
toml = "0.5"
