[package]
name = "space_trader"
version = "0.1.0"
edition = "2021"
publish = false

[dependencies]
pathfinding = "*"
rand = { version = "*", features = ["small_rng"] }
