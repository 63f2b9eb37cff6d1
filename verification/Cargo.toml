[package]
name = "dilithium_keys"
version = "1.0.0"
edition = "2021"
publish = false

[dependencies]
base64 = "=0.21.7"
clap = { version = "=4.6.7", features = ["derive"] }
crystals-dilithium = "=1.0.0"
der = { version = "=0.7.10", features = ["alloc", "oid", "pem", "std"] }
rand = "=0.8.8"
sha2 = "=0.10.9"
thiserror = "=1.0.69"
