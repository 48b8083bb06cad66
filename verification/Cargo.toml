[package]
name = "flipchart"
version = "0.1.0"
edition = "2021"
publish = false

[dependencies]
mermaid-rs-renderer = "=0.3.1"
rmcp = { version = "*", features = ["server", "macros", "transport-io"] }
tokio = { version = "*", features = ["rt", "macros", "io-std", "time", "signal"] }
schemars = "*"
serde = { version = "*", features = ["derive"] }
resvg = "*"
objc2 = "*"
objc2-app-kit = "*"
objc2-foundation = "*"

[dev-dependencies]
serde_json = "*"
