[package]
name = "dynamic_crud"
version = "0.1.0"
edition = "2021"
publish = false

[dependencies]
serde = { version = "=1.0.229", features = ["derive"] }
serde_json = "=1.0.151"
jsonschema = { version = "=0.58.6", default-features = false }
uuid = { version = "=1.27.0", features = ["v4"] }
actix-web = "=4.15.0"
actix-cors = "=0.7.2"
actix-files = "=0.7.0"
utoipa = "=6.0.0"
