[package]
name = "plunger"
version = "0.2.0"
edition = "2021"
publish = false

[dependencies]
clap = { version = "4", features = ["derive"] }
fs_extra = "1"
human-repr = "1"
ignore = "0.4"
log = "0.4"
regex = "1"
simplelog = "0.12"
thiserror = "1"
