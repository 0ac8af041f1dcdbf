[package]
name = "lake_indexer"
version = "0.1.0"
edition = "2021"
publish = false

[dependencies]
near-lake-framework = "=0.7.14"
reqwest = { version = "=0.12.28", features = ["json"] }
serde_json = "=1.0.151"
tokio = { version = "=1.53.2", features = ["macros", "rt-multi-thread"] }
