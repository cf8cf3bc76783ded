[package]
name = "ringrtc"
version = "0.1.0"
edition = "2021"
publish = false

[dependencies]
sha2 = "0.10"
hkdf = "0.12"
x25519-dalek = "2"
regex-automata = "0.1"
thiserror = "1"
tokio = { version = "1", features = ["rt-multi-thread"] }
futures = "0.3"
hex = "0.4"

[dev-dependencies]
rand = "0.8"
