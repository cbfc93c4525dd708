[package]
name = "nix_search"
version = "0.1.0"
edition = "2021"
publish = false

[dependencies]
serde = { version = "1", features = ["derive"] }
serde_json = "1"
directories = "3"
structopt = "0.3"
colored = "2"
indicatif = "0.15"
