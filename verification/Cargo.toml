[package]
name = "gilrs-core"
version = "0.1.0"
edition = "2021"
publish = false

[dependencies]
libc = "0.2"
nix = { version = "0.29", default-features = false, features = ["event"] }
serde = { version = "1", features = ["derive"] }
