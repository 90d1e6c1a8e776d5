[package]
name = "cargo-esr"
version = "0.1.0"
edition = "2021"
publish = false

[dependencies]
regex = "=1.13.1"
semver = "=0.9.0"
time = "=0.1.45"
serde = { version = "=1.0.229", features = ["derive"] }
serde_json = "=1.0.154"
isahc = "=1.8.3"
futures = "=0.3.34"
tokio = { version = "=0.2.25", features = ["full"] }
smol = "=1.3.0"
clap = "=2.34.0"
crates-index = "=0.16.7"
log = "=0.4.34"
fern = "=0.6.2"
chrono = "=0.4.45"
once_cell = "=1.21.4"
async-trait = "=0.1.92"
term = "=1.2.1"
