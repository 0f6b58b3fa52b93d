[package]
name = "basic_strategies"
version = "0.1.0"
edition = "2021"
publish = false

[dependencies]
shakmaty = "*"
serde = { version = "*", features = ["derive"] }
axum = "*"
tokio = { version = "*", features = ["rt-multi-thread", "macros", "net"] }
