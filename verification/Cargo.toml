[package]
name = "listshare"
version = "0.1.0"
edition = "2021"
publish = false

[dependencies]
jsonwebtoken = "9"
sha2 = "0.10"
hex = "0.4"
rand = "0.8"
chrono = "0.4"
dotenvy = "0.15"
