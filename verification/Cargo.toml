[package]
name = "mosaicod"
version = "0.1.0"
edition = "2021"
publish = false

[dependencies]
uuid = { version = "=1.29.0", features = ["v4"] }
thiserror = "=2.0.21"
serde = { version = "=1.0.229", features = ["derive"] }
serde_json = "=1.0.154"
url = "=2.5.8"
log = "=0.4.34"
futures = "=0.3.34"
tokio = { version = "=1.54.1", features = ["rt", "sync", "macros"] }
datafusion = { version = "=55.2.0", default-features = false, features = ["parquet", "sql"] }
sqlx = { version = "=0.8.6", default-features = false, features = ["postgres", "runtime-tokio", "uuid", "json"] }
arrow-flight = "=59.3.1"
tonic = "=0.14.6"
