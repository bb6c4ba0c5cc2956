[package]
name = "otpguard"
version = "0.1.0"
edition = "2021"
publish = false

[dependencies]
aes-gcm = "0.10"
anyhow = "1"
argon2 = "0.5"
base32 = "0.4"
chrono = "0.4"
clap = { version = "4", features = ["derive"] }
dirs = "5"
hmac = "0.12"
image = { version = "0.24", default-features = false, features = ["png", "jpeg"] }
libc = "0.2"
quircs = "0.10"
rand = "0.8"
rpassword = "7"
serde = { version = "1", features = ["derive"] }
serde_json = "1"
sha1 = "0.10"
sha2 = "0.10"
url = "2"
