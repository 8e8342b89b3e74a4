[package]
name = "csv_to_parquet"
version = "0.1.0"
edition = "2021"
publish = false

[dependencies]
arrow = "=60.0.0"
arrow-schema = { version = "=60.0.0", features = ["serde"] }
parquet = "=60.0.0"
clap = { version = "=4.6.7", features = ["derive"] }
serde_json = "=1.0.151"

[dev-dependencies]
bytes = "=1.12.1"
