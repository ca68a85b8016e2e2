[package]
name = "ticket_validator"
version = "0.1.0"
edition = "2021"
publish = false

[dependencies]
ed25519-dalek = "2"
hkdf = "0.12"
sha2 = "0.10"
uuid = { version = "1", features = ["v4", "serde"] }
pickledb = "0.5"
serde = { version = "1", features = ["derive"] }
clap = { version = "4", features = ["derive"] }
dotenvy = "0.15"
