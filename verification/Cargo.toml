[package]
name = "dataset_store"
version = "0.1.0"
edition = "2021"
publish = false

[dependencies]
axum = "=0.8.9"
axum_typed_multipart = "=0.16.8"
bson = { version = "=2.15.0", features = ["chrono-0_4"] }
chrono = "=0.4.45"
dotenv = "=0.15.0"
futures = "=0.3.34"
fuzzy-datetime = "=0.1.4"
mongodb = "=3.9.1"
serde = { version = "=1.0.229", features = ["derive"] }
serde_json = "=1.0.154"
spreadsheet-to-json = "=0.5.0"
tempfile = "=3.27.0"
to_segments = "=0.1.2"
tokio = { version = "=1.54.1", features = ["full"] }
tower-http = { version = "=0.7.1", features = ["cors"] }

[dev-dependencies]
regex = "1"
