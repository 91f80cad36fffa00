[package]
name = "sqlx_paginated"
version = "0.1.0"
edition = "2021"
publish = false

[dependencies]
serde = { version = "*", features = ["derive"] }
serde_json = "*"
chrono = { version = "*", default-features = false, features = ["std", "serde"] }
sqlx = { version = "*", default-features = false, features = ["postgres", "uuid", "chrono", "runtime-tokio"] }
uuid = "*"
