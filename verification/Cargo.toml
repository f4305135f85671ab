[package]
name = "cycles_numerologie_du_tarot"
version = "0.1.0"
edition = "2021"
publish = false

[dependencies]
psd = "0.3"
image = { version = "0.25", default-features = false, features = ["png"] }
