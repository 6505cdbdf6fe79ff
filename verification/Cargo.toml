[package]
name = "apigen"
version = "0.1.0"
edition = "2021"
publish = false

[dependencies]
heck = "0.5"
serde_json = "1"
serde = { version = "1", features = ["derive"] }
pico-args = "0.5"
eyre = "0.6"
color-eyre = "0.6"
