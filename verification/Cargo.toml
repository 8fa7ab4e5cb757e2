[package]
name = "actix_settings"
version = "0.1.0"
edition = "2021"
publish = false

[dependencies]
toml = "=0.5.11"
actix-web = { version = "=3.3.3", default-features = false }
actix-http = { version = "=2.2.2", default-features = false }
actix-service = "=1.0.6"
