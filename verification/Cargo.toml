[package]
name = "spica_writer"
version = "0.1.0"
edition = "2021"
publish = false

[dependencies]
serde = { version = "*", features = ["derive"] }
serde_json = "*"
chrono = "*"
dirs = "*"
dotenv = "*"
reqwest = { version = "*", default-features = false, features = ["blocking", "json"] }
