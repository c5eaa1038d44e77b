[package]
name = "solver_snapshot"
version = "0.1.0"
edition = "2021"
publish = false

[dependencies]
bincode = { version = "2.0", default-features = false, features = ["std"] }
