[package]
name = "safemask_core"
version = "0.1.0"
edition = "2021"
publish = false

[dependencies]
curve25519-dalek = "*"
blake2 = "*"
sha2 = "*"
rand = "*"
bip39 = "*"
bitcoin = "*"
hdwallet = "*"
bs58 = "*"
hex = "*"
aes-gcm = "*"
chacha20poly1305 = "*"
pbkdf2 = "*"
argon2 = "*"
serde = { version = "*", features = ["derive"] }
