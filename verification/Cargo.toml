[package]
name = "assh"
version = "0.1.0"
edition = "2021"
publish = false

[dependencies]
rand = "=0.8.8"
sha1 = "=0.10.7"
sha2 = "=0.10.9"
md-5 = "=0.10.6"
hmac = "=0.12.1"
x25519-dalek = { version = "=2.0.1", features = ["static_secrets"] }
p256 = { version = "=0.13.2", features = ["ecdh"] }
p384 = { version = "=0.13.1", features = ["ecdh"] }
p521 = { version = "=0.13.3", features = ["ecdh"] }
num-bigint = "=0.4.8"
ssh-key = { version = "=0.6.7", features = ["std", "ed25519", "rsa", "p256", "p384", "p521", "dsa", "encryption", "tdes"] }
signature = "=2.2.0"
ssh-packet = "=0.12.0"
flume = "=0.11.1"
futures = "=0.3.34"
futures-time = "=3.1.0"
tracing = "=0.1.44"
strum = "=0.25.0"
async-trait = "=0.1.92"

[dev-dependencies]
aes = "=0.8.4"
ctr = "=0.9.2"
cbc = "=0.1.2"
des = "=0.8.1"
