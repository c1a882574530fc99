[package]
name = "liboswo"
version = "0.1.0"
edition = "2021"
publish = false

[dependencies]
clap = { version = "4", features = ["derive"] }
color-eyre = "0.6"
dirs = "5"
env_logger = "0.10"
log = "0.4"
serde = { version = "1", features = ["derive"] }
swayipc = "3"
toml_edit = { version = "0.19", features = ["serde"] }
