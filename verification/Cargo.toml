[package]
name = "termie"
version = "0.1.0"
edition = "2021"
publish = false

[dependencies]
chrono = "0.4.45"
tokio = { version = "1", features = ["rt-multi-thread", "macros"] }
ask_gemini = "0.1.4"
