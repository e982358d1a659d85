[package]
name = "datafusion-loki"
version = "0.1.0"
edition = "2021"
publish = false

[dependencies]
async-trait = "0.1"
datafusion = { version = "50", default-features = false, features = ["parquet"] }
datafusion-proto = { version = "50", default-features = false }
futures = "0.3"
reqwest = { version = "0.12", default-features = false, features = ["json"] }
serde = { version = "1", features = ["derive"] }

[dev-dependencies]
prost = "0.13"
