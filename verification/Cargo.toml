[package]
name = "nor"
version = "0.1.0"
edition = "2021"
publish = false

[dependencies]
regex = "1"
atty = "0.2"
clap = { version = "4", features = ["derive"] }
clap_complete = "4"
notify-rust = "4"
skim = "0.10"
