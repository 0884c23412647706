[package]
name = "pledger"
version = "0.1.0"
edition = "2021"
publish = false

[dependencies]
chrono = "0.4"
nom = "7"
rust_decimal = "1"
seahorse = "1.1"
