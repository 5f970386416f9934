[package]
name = "flint"
version = "0.1.0"
edition = "2021"
publish = false

[dependencies]
serde = { version = "1", features = ["derive"] }
serde_json = "1"
sha2 = "0.10"
reqwest = { version = "0.12", default-features = false, features = ["json", "stream"] }
tokio = { version = "1", features = ["rt-multi-thread", "macros", "fs", "io-util", "process", "time", "sync"] }
futures-util = "0.3"
git2 = { version = "0.19", default-features = false }
libc = "0.2"
thiserror = "1"
anyhow = "1"
async-trait = "0.1"
