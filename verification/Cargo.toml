[package]
name = "iceberg-register"
version = "0.1.0"
edition = "2021"
publish = false

[dependencies]
anyhow = "1"
clap = { version = "4", default-features = false, features = ["derive", "error-context", "help", "std", "usage"] }
iceberg = { version = "0.10", default-features = false }
iceberg-catalog-rest = { version = "0.10", default-features = false }
iceberg-storage-opendal = { version = "0.10", default-features = false, features = ["opendal-s3"] }
# Held back so that the lock keeps a single copy of its macro helpers.
serde_with = { version = "=3.12.0", default-features = false }
tokio = { version = "1", features = ["fs", "macros", "rt-multi-thread"] }
