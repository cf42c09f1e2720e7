[package]
name = "fbkl_logic"
version = "0.1.0"
edition = "2021"
publish = false

[dependencies]
chrono = "0.4"
chrono-tz = "0.10"
rand = "0.8"
multimap = "0.10"
