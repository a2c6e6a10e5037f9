[package]
name = "hekate_mobile"
version = "0.1.0"
edition = "2021"
publish = false

[dependencies]
clap = { version = "=4.6.7", features = ["derive"] }
toml = "=1.1.8"
serde = { version = "=1.0.229", features = ["derive"] }
thiserror = "=2.0.21"
getrandom = "=0.3.4"
uniffi = { version = "=0.31.1", default-features = false }
hekate-core = "=0.38.0"
hekate-math = "=0.12.1"
hekate-program = "=0.38.0"
hekate-prover-sys = { version = "=0.38.1", features = ["ct"] }
hekate-sdk = "=0.38.0"
