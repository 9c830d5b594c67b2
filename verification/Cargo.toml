[package]
name = "bi"
version = "0.1.0"
edition = "2021"
publish = false

[dependencies]
nexum = "*"
tokio-postgres = "*"
serde = { version = "*", features = ["derive"] }
async-trait = "*"
