[package]
name = "ggsweep"
version = "0.1.0"
edition = "2021"
publish = false

[dependencies]
rand = "0.8"
ggez = "0.5"
ron = "0.8"
serde = { version = "1", features = ["derive"] }
log = "0.4"
simple_logger = "4"
