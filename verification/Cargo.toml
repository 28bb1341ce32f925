[package]
name = "pg_pool"
version = "0.1.0"
edition = "2021"
publish = false

[dependencies]
config = "*"
deadpool-postgres = "*"
lettre = { version = "*", default-features = false, features = ["smtp-transport", "pool", "builder", "hostname", "tokio1", "tokio1-rustls-tls"] }
log = "*"
once_cell = "*"
serde = { version = "*", features = ["derive"] }
