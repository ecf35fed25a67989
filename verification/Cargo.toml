[package]
name = "minils"
version = "0.1.0"
edition = "2021"
publish = false

[dependencies]
atty = "0.2"
chrono = "0.4"
clap = { version = "4", features = ["derive"] }
colorama = "*"
termsize = "0.1"
