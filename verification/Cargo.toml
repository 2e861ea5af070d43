[package]
name = "goose_core"
version = "0.1.0"
edition = "2021"
publish = false

[dependencies]
serde = { version = "*", features = ["derive"] }
serde_json = "*"
regex = "*"
anyhow = "*"
thiserror = "*"
base64 = "*"
which = "*"
tempfile = "*"
etcetera = "*"
fs2 = "*"
console = "*"
strum = { version = "*", features = ["derive"] }
indoc = "*"
tracing = "*"
schemars = "*"
rustyline = "*"
futures = "*"
tokio = { version = "*", features = ["rt-multi-thread", "macros", "process", "time", "net", "io-util"] }
reqwest = { version = "*", default-features = false, features = ["json"] }
chromiumoxide = { version = "*", default-features = false, features = ["tokio-runtime"] }
rmcp = { version = "*", features = ["server", "macros"] }
agent-client-protocol = "*"
