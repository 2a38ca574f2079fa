[package]
name = "live_codec"
version = "0.1.0"
edition = "2021"
publish = false

[dependencies]
flate2 = "1"
hmac = "0.12"
sha2 = "0.10"
md5 = "0.7"
rand = "0.8"
