[package]
name = "sort_track"
version = "0.1.0"
edition = "2021"
publish = false

[dependencies]
itertools = "*"
ndarray = "0.15"
ndarray-linalg = "0.16"
lapjv = "0.2"
thiserror = "*"
futures = "0.3"
tokio = { version = "1", features = ["rt-multi-thread", "macros", "sync"] }
nt_client = "*"
uom = "*"
