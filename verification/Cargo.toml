[package]
name = "pre_signer"
version = "0.1.0"
edition = "2021"
publish = false

[dependencies]
memmap = "0.7"
slog = "2"
tokio = { version = "1", features = ["macros", "signal"] }
