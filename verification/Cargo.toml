[package]
name = "snek"
version = "0.1.0"
edition = "2021"
publish = false

[dependencies]
rand = "0.8"
serde = { version = "1", features = ["derive"] }
bincode = "1"
flume = "0.11"
futures = "0.3"
cfg-if = "1"
seeded-random = "0.6"
wtransport = "0.1"
