[package]
name = "weee"
version = "0.1.0"
edition = "2021"
publish = false

[dependencies]
clap = { version = "3", features = ["derive"] }
colored = "2"
linked-hash-map = { version = "0.5", features = ["serde_impl"] }
serde = { version = "1", features = ["derive"] }
serde_derive = "1"
terminal_size = "0.1"
toml = "0.5"
toml_edit = "0.14"
