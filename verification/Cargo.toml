[package]
name = "kip"
version = "0.1.0"
edition = "2021"
publish = false

[dependencies]
anyhow = "1"
clap = { version = "4", features = ["cargo"] }
configparser = "3"
glob = "0.3"
rand = "0.8"
rpassword = "5"
