[package]
name = "sharded_ledger"
version = "0.1.0"
edition = "2021"
publish = false

[dependencies]
sha2 = "0.10"
chrono = "0.4"
rand = "0.8"
serde = { version = "1", features = ["derive"] }
actix-web = "4"
actix-files = "0.6"
lazy_static = "1"
