[package]
name = "aws_setter"
version = "0.1.0"
edition = "2021"
publish = false

[dependencies]
clap = "2.33"
color-eyre = "0.5"
config = { version = "0.10", default-features = false, features = ["toml", "yaml"] }
serde = "1.0"
serde_derive = "1.0"
serde_ini = "0.2"
serde_json = "1.0"
