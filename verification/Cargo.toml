[package]
name = "al_structures"
version = "0.1.0"
edition = "2021"
publish = false

[dependencies]
arc-swap = "1"
serde = { version = "1", features = ["derive"] }
serde_json = "1"
erased-serde = "0.4"
bitcode = { version = "0.6", features = ["serde"] }
tynm = "0.2"
