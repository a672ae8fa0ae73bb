[package]
name = "bundler"
version = "0.1.0"
edition = "2021"

[dependencies]
log = "*"
simple-string-builder = "*"
syn = { version = "*", features = ["full", "visit-mut"] }
