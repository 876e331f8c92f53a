[package]
name = "kete"
version = "0.1.0"
edition = "2021"
publish = false

[dependencies]
blake3 = "=1.8.7"
chacha20poly1305 = "=0.11.0"
dirs = "=7.0.0"
log = "=0.4.35"
manifestus = "=0.0.5"
rand = "=0.8.8"
tohu = "=0.0.3"
vsf = { version = "=0.10.2", features = ["inspect"] }
