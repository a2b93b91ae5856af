[package]
name = "blazingly_aasa_mcp"
version = "0.1.1"
edition = "2021"
publish = false

[dependencies]
blazingly-aasa = "0.1.1"
blazingly-json = "*"
mcport = "*"
serde = { version = "1", features = ["derive"] }
ureq = "3"

[dev-dependencies]
serde_json = "1"
