[package]
name = "item-ownership"
version = "0.1.0"
edition = "2021"
publish = false

[dependencies]
chrono = "0.4"
home = "0.5"
serde_json = "1"
stybulate = "*"
