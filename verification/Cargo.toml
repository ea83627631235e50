[package]
name = "wealth_tracker"
version = "0.1.0"
edition = "2021"
publish = false

[dependencies]
chrono = "*"
crossbeam = "*"
reqwest = { version = "*", default-features = false, features = ["blocking"] }
serde_json = "*"
thiserror = "*"
