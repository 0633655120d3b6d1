[package]
name = "engula"
version = "0.1.0"
edition = "2021"
publish = false

[dependencies]
async-trait = "0.1"
aws-sdk-s3 = "*"
bytes = "1"
futures = "0.3"
http = "*"
prost = "0.11"
raft = "0.7"
raft-engine = "*"
serde = { version = "1", features = ["derive"] }
tokio = { version = "1", features = ["fs", "io-util", "sync", "time", "rt"] }
tonic = "*"
tracing = "0.1"
