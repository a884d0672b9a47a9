[package]
name = "rinha"
version = "0.1.0"
edition = "2021"
publish = false

[dependencies]
axum = "0.7"
serde = { version = "1", features = ["derive"] }
serde_json = "1"
time = { version = "0.3", features = ["formatting", "parsing", "serde-well-known"] }
tokio = { version = "1", features = ["macros", "rt-multi-thread", "net", "sync"] }
