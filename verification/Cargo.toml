[package]
name = "hrc_cli"
version = "0.1.0"
edition = "2021"
publish = false

[dependencies]
getrandom = "0.3"
clap = { version = "4", features = ["derive"] }
serde_json = "1"
thiserror = "2"
