[package]
name = "multi-sig"
version = "0.1.0"
edition = "2021"
publish = false

[dependencies]
multi-base = "=1.0.4"
multi-codec = "1"
multi-trait = "=1.0.5"
multi-util = "1"
ssh-key = { version = "=0.6.7", default-features = false, features = ["alloc"] }
ssh-encoding = "=0.2.0"
chacha20poly1305 = "=0.10.1"
ciborium = "=0.2.2"
getrandom = "=0.2.17"
zeroize = "=1.9.1"
thiserror = "=2.0.21"
serde = { version = "=1.0.229", features = ["derive"] }
