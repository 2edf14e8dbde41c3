[package]
name = "zk_img"
version = "0.1.0"
edition = "2021"
publish = false

[dependencies]
sha2 = "=0.10.9"
halo2_proofs = "=0.4.0"
halo2_gadgets = "=0.6.0"
pasta_curves = "=0.6.1"
rand = "=0.10.3"
image = { version = "=0.24.9", default-features = false }
serde = { version = "=1.0.229", features = ["derive"] }
serde_json = "=1.0.154"
anyhow = "=1.0.104"
