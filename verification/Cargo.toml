[package]
name = "bkup"
version = "0.1.0"
edition = "2021"
publish = false

[dependencies]
clap = "2"
dotenv = "0.15"
env_logger = "0.7"
failure = { version = "0.1", default-features = false, features = ["std"] }
ignore = "0.4"
log = "0.4"
