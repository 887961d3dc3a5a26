[package]
name = "maestro"
version = "0.1.0"
edition = "2021"
publish = false

[dependencies]
colored = "=2.2.0"
futures = "=0.3.34"
serde = { version = "=1.0.229", features = ["derive"] }
tokio = { version = "=1.54.1", features = ["macros", "process", "rt-multi-thread", "signal", "sync"] }
toml = "=0.8.23"
