[package]
name = "tacacs_plus"
version = "0.1.0"
edition = "2021"
publish = false

[dependencies]
md-5 = "0.10"
rand = "0.8"
uuid = { version = "1", features = ["v4"] }
futures = "0.3"
