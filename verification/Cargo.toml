[package]
name = "atproto_lexicon"
version = "0.1.0"
edition = "2021"
publish = false

[dependencies]
serde_json = "1"
serde = { version = "1", features = ["derive"] }
walkdir = "2"
proc-macro2 = "1"
quote = "1"
