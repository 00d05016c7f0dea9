[package]
name = "coinslock_rust"
version = "0.1.0"
edition = "2021"
publish = false

[dependencies]
bitcoin = "*"
secp256k1 = "*"
sha2 = "*"
ripemd = "*"
pbkdf2 = "*"
hmac = "*"
rand = "*"
