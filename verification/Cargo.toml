[package]
name = "chain_datasets"
version = "0.1.0"
edition = "2021"
publish = false

[dependencies]
chrono = "0.4"
itertools = "*"
ordered-float = "*"
savefile = "*"
serde = { version = "1", features = ["derive"] }
serde_json = "1"
color-eyre = "*"
