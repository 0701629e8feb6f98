[package]
name = "rouge"
version = "0.1.0"
edition = "2021"
publish = false

[dependencies]
bracket-lib = { version = "0.8", default-features = false, features = ["crossterm"] }
legion = "0.4"
type-uuid = "0.1"
serde = { version = "1", features = ["derive"] }
bincode = "1"
crossbeam-channel = "0.5"
