[package]
name = "qwartz"
version = "0.1.0"
edition = "2021"
publish = false

[dependencies]
aes-gcm = "0.10"
sha3 = "0.10"
zeroize = "1"
thiserror = "1"
