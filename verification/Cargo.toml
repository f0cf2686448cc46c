[package]
name = "requests_native"
version = "0.1.0"
edition = "2021"
publish = false

[dependencies]
bytes = "1"
futures-core = "0.3"
pyo3 = "0.27"
tokio = { version = "1", features = ["rt", "sync", "time", "macros", "rt-multi-thread"] }
