[package]
name = "blackbird"
version = "0.1.0"
edition = "2021"
publish = false

[dependencies]
surrealdb-core = { version = "1", default-features = false, features = ["kv-mem"] }
tokio = { version = "1", default-features = false, features = ["rt"] }
