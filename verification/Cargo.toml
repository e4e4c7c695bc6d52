[package]
name = "pq_envelope"
version = "0.1.0"
edition = "2021"
publish = false

[dependencies]
ml-kem = "=0.2.3"
dilithium-rs = "=0.3.0"
chacha20poly1305 = "=0.10.1"
rand = "=0.8.8"
serde = { version = "=1.0.229", features = ["derive"] }
serde_cbor = "=0.11.2"
