[package]
name = "npcore"
version = "0.1.0"
edition = "2021"
publish = false

[dependencies]
config = "0.13"
crossterm = "0.27"
csv = "1"
eyre = "0.6"
log = "0.4"
ndarray = { version = "0.15", features = ["rayon"] }
ndarray-csv = "0.5"
ndarray-stats = "0.5"
ratatui = "0.25"
serde = { version = "1", features = ["derive"] }
serde_json = "1"
tokio = { version = "1", features = ["sync"] }
tracing = "0.1"
