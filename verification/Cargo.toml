[package]
name = "vitality"
version = "0.1.0"
edition = "2021"
publish = false

[dependencies]
anyhow = "=1.0.104"
chrono = { version = "=0.4.45", default-features = false, features = ["clock"] }
cln-plugin = "=0.3.0"
cln-rpc = "=0.3.0"
lettre = { version = "=0.11.23", default-features = false, features = ["smtp-transport", "tokio1", "tokio1-rustls-tls", "builder"] }
log = "=0.4.34"
log-panics = "=2.1.0"
mimalloc = "=0.1.52"
parking_lot = "=0.12.5"
reqwest = { version = "=0.12.28", default-features = false, features = ["rustls-tls"] }
serde_json = "=1.0.154"
takecell = "=0.1.1"
teloxide = { version = "=0.13.0", default-features = false, features = ["rustls"] }
tokio = { version = "=1.54.1", features = ["rt-multi-thread", "time", "macros", "io-std"] }
