[package]
name = "rusty_yacht"
version = "0.1.0"
edition = "2021"
publish = false

[dependencies]
chrono = { version = "0.4", default-features = false, features = ["clock"] }
dirs = "2.0"
rand = "0.7"
termion = "1.5"
