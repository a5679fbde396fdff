[package]
name = "zkdoc"
version = "0.1.0"
edition = "2021"
publish = false

[dependencies]
sha2 = "=0.10.9"
halo2_proofs = "=0.4.0"
halo2_gadgets = "=0.6.0"
ff = "=0.14.0"
rand_core = "=0.10.1"
rand = "*"
serde = { version = "=1.0.229", features = ["derive"] }
serde_json = "=1.0.151"
