[package]
name = "parquet_flamegraph"
version = "0.1.0"
edition = "2021"
publish = false

[dependencies]
clap = { version = "*", features = ["derive"] }
inferno = "*"
parquet = "*"
uuid = { version = "*", features = ["v4"] }
