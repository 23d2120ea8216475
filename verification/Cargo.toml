[package]
name = "carris_client"
version = "0.1.0"
edition = "2021"
publish = false

[dependencies]
reqwest = { version = "=0.13.5", default-features = false, features = ["blocking"] }
xdg = "=3.0.0"
reqwless = { version = "=0.14.0", default-features = false }
embedded-io-async = "=0.7.0"
embedded-nal-async = "=0.9.0"
