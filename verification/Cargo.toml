[package]
name = "realworld"
version = "0.1.0"
edition = "2021"
publish = false

[dependencies]
chrono = "=0.4.45"
diesel = { version = "=2.3.14", features = ["mysql_backend", "chrono"] }
rand = "=0.8.8"
scrypt = "=0.11.0"
serde = { version = "=1.0.229", features = ["derive"] }
slug = "=0.1.6"
