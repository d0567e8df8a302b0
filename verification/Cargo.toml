[package]
name = "waveform"
version = "0.1.0"
edition = "2021"
publish = false

[dependencies]
crossterm = "0.25"
dotenv = "0.15"
id3 = "1"
reqwest = { version = "0.11", default-features = false, features = ["blocking", "rustls-tls"] }
rodio = "0.19"
serde = { version = "1", features = ["derive"] }
serde_json = "1"
tui = "0.19"
