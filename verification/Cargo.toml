[package]
name = "cripto_endevs_comunity"
version = "0.3.0"
edition = "2021"
publish = false

[dependencies]
aes-gcm = "0.10"
base64 = "0.22"
hkdf = "0.12"
hmac = "0.12"
rand = "0.8"
sha2 = "0.10"
zeroize = "1.8"
