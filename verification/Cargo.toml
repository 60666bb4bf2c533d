[package]
name = "api_gateway"
version = "0.1.0"
edition = "2021"
publish = false

[dependencies]
serde = { version = "*", features = ["derive"] }
serde_json = "=1.0.151"
serde_yaml = "*"
jsonwebtoken = { version = "=11.1.0", features = ["rust_crypto"] }
chrono = "=0.4.45"
regex = "=1.13.1"
rand = "=0.10.3"
axum = "*"
tokio = { version = "*", features = ["rt-multi-thread", "macros", "signal", "time"] }
reqwest = { version = "*", default-features = false, features = ["json"] }
notify = "*"
clap = { version = "*", features = ["derive"] }
tracing = "*"
tracing-subscriber = { version = "*", features = ["env-filter", "fmt"] }
