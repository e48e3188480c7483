[package]
name = "event_queue"
version = "0.1.0"
edition = "2021"
publish = false

[dependencies]
borsh = { version = "=1.8.1", features = ["derive"] }
solana-program = "=5.1.0"
