[package]
name = "dove_checks"
version = "0.1.0"
edition = "2021"
publish = false

[dependencies]
bevy_ecs = { version = "*", default-features = false, features = ["std"] }
bevy_math = { version = "*", default-features = false, features = ["std", "rand", "curve"] }
rand = { version = "*", default-features = false }
