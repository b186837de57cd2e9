[package]
name = "loper_service"
version = "0.1.0"
edition = "2021"
publish = false

[dependencies]
tokio = { version = "1", features = ["sync", "rt", "rt-multi-thread", "macros", "time"] }
tonic = { version = "0.12", default-features = false, features = ["channel", "codegen"] }
prost = "0.13"
once_cell = "1"
neon = "1"
