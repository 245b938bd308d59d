[package]
name = "penumbra_note"
version = "0.1.0"
edition = "2021"
publish = false

[dependencies]
anyhow = "1"
ark-ff = "=0.3.0"
blake2b_simd = "=1.0.5"
chacha20poly1305 = "=0.9.1"
decaf377 = "=0.3.0"
jmt = "=0.2.0"
poseidon377 = "=0.3.0"
rand = "0.8"
rand_core = { version = "=0.6.4", features = ["getrandom"] }
serde = { version = "1", features = ["derive"] }
thiserror = "1"
