[package]
name = "sonorant"
version = "0.1.0"
edition = "2021"
publish = false

[dependencies]
serde = { version = "=1.0.229", features = ["derive"] }
toml = "=0.8.23"
rustfft = "=6.4.1"
half = "=2.7.1"
rtrb = "=0.4.1"
triple_buffer = "=9.0.0"
zbus = "5"
