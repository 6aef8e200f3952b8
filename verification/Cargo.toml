[package]
name = "bisect_rustc"
version = "0.1.0"
edition = "2021"
publish = false

[dependencies]
chrono = "0.4"
colored = "2"
dirs = "5"
env_logger = "0.10"
log = "0.4"
reqwest = { version = "0.11", default-features = false, features = ["blocking"] }
structopt = "0.3"
tee = "0.1"
failure = "0.1"
