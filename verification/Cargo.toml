[package]
name = "xml_service"
version = "0.1.0"
edition = "2021"
publish = false

[dependencies]
anyhow = "1"
aws-config = { version = "1", default-features = false }
aws-sdk-s3 = { version = "1", default-features = false }
chrono = { version = "0.4", default-features = false, features = ["clock", "std"] }
csv = "1"
native-tls = "0.2"
postgres-native-tls = "0.5"
prost = "0.12"
quick-xml = { version = "0.31", features = ["serialize"] }
redis = { version = "0.23", features = ["tokio-comp"] }
reqwest = { version = "0.11", default-features = false, features = ["json"] }
serde = { version = "1", features = ["derive"] }
serde_json = "1"
tokio = { version = "1", features = ["macros", "rt-multi-thread", "sync", "time"] }
tokio-postgres = "0.7"
tokio-stream = "0.1"
tonic = "0.10"
