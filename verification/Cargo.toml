[package]
name = "multiplex"
version = "0.1.0"
edition = "2021"
publish = false

[dependencies]
anyhow = "1"
dirs = "5"
egui = { version = "0.29", default-features = false }
egui-file-dialog = { version = "0.7", default-features = false }
egui-phosphor = { version = "0.7", default-features = false, features = ["regular"] }
futures-util = { version = "0.3", default-features = false, features = ["sink", "std"] }
serde = { version = "1", features = ["derive"] }
serde_json = "1"
thiserror = "1"
tokio = { version = "1", default-features = false, features = ["macros", "net", "rt-multi-thread", "sync", "time"] }
tokio-tungstenite = { version = "0.24", default-features = false, features = ["connect", "handshake"] }
toml = { version = "0.8", features = ["preserve_order"] }
tracing = "0.1"
tracing-subscriber = { version = "0.3", default-features = false, features = ["ansi", "env-filter", "fmt", "std"] }
uuid = { version = "1", features = ["v4"] }
