[package]
name = "tav"
version = "0.1.0"
edition = "2021"
publish = false

[dependencies]
clap = "2.34"
console = "0.15"
dirs = "5"
glob = "0.3"
log = "0.4"
pretty_env_logger = "0.4"
serde = { version = "1", features = ["derive"] }
termion = "1.5"
toml = "0.5"
