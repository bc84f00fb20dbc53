[package]
name = "parquet_native"
version = "0.1.0"
edition = "2021"
publish = false

[dependencies]
arrow-array = "=60.0.0"
arrow-buffer = "=60.0.0"
arrow-data = "=60.0.0"
arrow-schema = "=60.0.0"
jni = "=0.21.1"
parquet = { version = "=60.0.0", default-features = false, features = ["arrow"] }
thiserror = "=1.0.69"

[dev-dependencies]
bytes = "=1.12.1"
