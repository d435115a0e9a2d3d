[package]
name = "fluxfox"
version = "0.1.0"
edition = "2021"
publish = false

[dependencies]
flate2 = "1"
zip = { version = "2", default-features = false, features = ["deflate"] }
thiserror = "1"
