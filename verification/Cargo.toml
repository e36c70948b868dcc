[package]
name = "stats_summary"
version = "0.1.0"
edition = "2021"
publish = false

[dependencies]
pgx = { version = "0.1.21", default-features = false, features = ["pg13"] }
