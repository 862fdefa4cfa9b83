[package]
name = "nix_data"
version = "0.1.0"
edition = "2021"
publish = false

[dependencies]
anyhow = "*"
brotli = "*"
nix-editor = "*"
reqwest = { version = "*", default-features = false, features = ["brotli"] }
serde = { version = "*", features = ["derive"] }
serde_json = "*"
sqlx = { version = "*", default-features = false, features = ["runtime-tokio", "sqlite"] }
