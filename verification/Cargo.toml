[package]
name = "mytop_tui"
version = "0.1.0"
edition = "2021"
publish = false

[dependencies]
regex = "1"
mysql = { version = "*", default-features = false, features = ["minimal"] }
