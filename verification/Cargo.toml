[package]
name = "port_exporter"
version = "0.1.0"
edition = "2021"
publish = false

[dependencies]
prometheus = { version = "0.13", default-features = false }
clap = "2"
futures = "0.1"
hyper = "0.11"
serde = "1"
serde_derive = "1"
serde_yaml = "0.8"
slog = "2"
slog-term = "2"
