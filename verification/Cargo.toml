[package]
name = "sql_plugin"
version = "0.1.0"
edition = "2021"
publish = false

[dependencies]
futures-core = "0.3"
indexmap = { version = "2", features = ["serde"] }
serde = { version = "1", features = ["derive"] }
serde_json = "1"
sqlx = { version = "0.6", default-features = false, features = ["runtime-tokio-rustls", "sqlite", "mysql", "postgres", "mssql", "json", "migrate"] }
thiserror = "1"
tokio = { version = "1", features = ["sync"] }
