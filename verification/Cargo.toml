[package]
name = "kc_admin_mcp"
version = "0.1.0"
edition = "2021"
publish = false

[dependencies]
regex = "1"
uuid = "1"
time = { version = "0.3", features = ["parsing"] }
serde = { version = "1", features = ["derive"] }
serde_json = "1"
schemars = "*"
rmcp = { version = "*", features = ["server", "macros"] }
axum = "*"
