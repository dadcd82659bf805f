[package]
name = "tushare"
version = "0.1.0"
edition = "2021"
publish = false

[dependencies]
serde_json = "*"
polars = { version = "*", default-features = false, features = ["json"] }
reqwest = { version = "*", default-features = false, features = ["blocking"] }
