[package]
name = "salamandra"
version = "0.1.0"
edition = "2021"
publish = false

[dependencies]
encoding = "0.2"
serde = { version = "1", features = ["derive"] }
serde_json = "1"
toml = "0.5"
local-ip-address = "0.5"
tokio = { version = "1", features = ["full"] }
reqwest = { version = "0.11", default-features = false, features = ["stream"] }
indicatif = "0.15"
futures-util = "0.3"
actix-web = { version = "4", default-features = false, features = ["macros"] }
actix-files = "0.6"
