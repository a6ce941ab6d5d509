[package]
name = "transcribe_cli"
version = "0.1.0"
edition = "2021"
publish = false

[dependencies]
clap = { version = "=4.6.7", features = ["derive"] }
transcribe-rs = { version = "=0.2.9", features = ["whisper", "parakeet"] }

[dev-dependencies]
serde_json = "=1.0.151"
