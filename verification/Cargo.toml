[package]
name = "lang_guard"
version = "0.1.0"
edition = "2021"
publish = false

[dependencies]
actix-files = "0.6"
actix-web = { version = "4", features = ["rustls-0_22"] }
askama = "0.12"
config = { version = "0.14", default-features = false, features = ["toml"] }
env_logger = "0.11"
fluent-templates = "0.8"
futures-util = "0.3"
log = { version = "0.4", features = ["serde"] }
rustls = "0.22"
rustls-pemfile = "2"
serde = { version = "1", features = ["derive"] }
unic-langid = "0.9"
