[package]
name = "nebula_apps"
version = "0.1.0"
edition = "2021"
publish = false

[dependencies]
async-trait = "0.1"
axum = "0.8"
chrono = { version = "0.4", features = ["serde"] }
rust_decimal = "1"
sea-orm = { version = "1", default-features = false, features = ["macros", "with-chrono", "with-json", "with-rust_decimal", "with-uuid"] }
serde = { version = "1", features = ["derive"] }
serde_json = "1"
tokio = { version = "1", features = ["rt", "macros", "time"] }
tracing = "0.1"
utoipa = "5"
uuid = { version = "1", features = ["v4", "serde"] }
