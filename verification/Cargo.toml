[package]
name = "numeromancy"
version = "0.1.0"
edition = "2021"
publish = false

[dependencies]
anyhow = "*"
argmin = "*"
argmin-math = "*"
clap = { version = "*", features = ["derive"] }
mysql = "*"
ndarray = "*"
serde = { version = "*", features = ["derive"] }
serde_json = "*"
simple-error = "*"
toml = "*"

[dev-dependencies]
argmin_testfunctions = "*"
