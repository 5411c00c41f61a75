[package]
name = "brace"
version = "0.1.0"
edition = "2021"
publish = false

[dependencies]
serde = { version = "1", features = ["derive"] }
serde_json = "1"
serde_yaml = "*"
toml = "*"
chrono = "0.4"
rand = "0.8"
argon2rs = "0.2"
jsonwebtoken = "*"
uuid = { version = "1", features = ["v4"] }
actix-web = { version = "4", default-features = false, features = ["macros"] }
futures = "0.3"
bytes = "1"
serde_qs = "*"
encoding_rs = "0.8"
clap = "*"
postgres = "*"
