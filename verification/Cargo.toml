[package]
name = "tableformat_list"
version = "0.1.0"
edition = "2021"
publish = false

[dependencies]
prettytable-rs = "=0.10.0"
serde = { version = "=1.0.229", features = ["derive"] }
serde_json = "=1.0.151"
serde_yaml = "*"
