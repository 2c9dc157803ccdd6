[package]
name = "raftmeta"
version = "0.1.0"
edition = "2021"
publish = false

[dependencies]
async-trait = "0.1"
chrono = "0.4"
flexbuffers = "2.0"
log = "0.4"
protobuf = "2"
raft = { version = "0.7", default-features = false, features = ["protobuf-codec"] }
rocksdb = { version = "*", default-features = false }
serde = { version = "1", features = ["derive"] }
slog = "2"
slog-stdlog = "4"
tokio = { version = "1", features = ["full"] }
