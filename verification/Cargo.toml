[package]
name = "mimicrypt"
version = "0.1.0"
edition = "2021"
publish = false

[dependencies]
anyhow = "1"
base64 = "0.22"
bincode = "1.3"
chacha20poly1305 = "0.9"
double-ratchet-2 = "=0.3.6"
ed25519-dalek = { version = "2", default-features = false, features = ["fast", "rand_core"] }
hkdf = "0.12"
sha2 = "0.10"
x25519-dalek = { version = "2", default-features = false, features = ["static_secrets", "precomputed-tables"] }
rand = "0.8"
serde = { version = "1", features = ["derive"] }
serde_json = "1"
time = { version = "0.3", features = ["serde"] }
uuid = { version = "1", features = ["v4", "serde"] }
zeroize = "1"
thiserror = "1"
rusqlite = { version = "0.31", features = ["bundled"] }
keyring = { version = "2", default-features = false, features = ["linux-no-secret-service"] }
lettre = { version = "0.11", default-features = false, features = ["smtp-transport", "builder", "native-tls"] }
imap = "2.4"
native-tls = "0.2"
