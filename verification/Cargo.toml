[package]
name = "tesapi"
version = "0.1.0"
edition = "2021"
publish = false

[dependencies]
serde = { version = "=1.0.229", features = ["derive"] }
serde_json = "=1.0.154"
sha2 = "=0.10.9"
getrandom = "=0.3.4"
reqwest = { version = "=0.12.28", default-features = false }
rusqlite = { version = "=0.41.1", features = ["bundled"] }
toml_edit = "=0.25.17"
libc = "=0.2.191"
tokio = { version = "1", features = ["rt-multi-thread", "macros", "io-util", "io-std", "time", "net", "sync"] }
interprocess = { version = "2", features = ["tokio"] }
rmcp = { version = "*", features = ["server", "transport-io"] }
chrono = "0.4"
