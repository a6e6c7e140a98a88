[package]
name = "fs_undo"
version = "0.1.0"
edition = "2021"
publish = false

[dependencies]
sha2 = "*"
uuid = { version = "*", features = ["v7"] }
camino = "*"
clap = "*"
