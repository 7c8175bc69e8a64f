[package]
name = "traitable"
version = "0.1.0"
edition = "2021"
publish = false

[dependencies]
basic-toml = "0.1"
proc-macro2 = "1"
serde = { version = "1", features = ["derive"] }
syn = { version = "2", features = ["full"] }
thiserror = "1"
