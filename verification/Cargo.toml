[package]
name = "cca_club_hub"
version = "0.1.0"
edition = "2021"
publish = false

[dependencies]
anyhow = "1"
argon2 = { version = "0.4", features = ["std"] }
axum = { version = "0.5", features = ["headers"] }
chrono = "0.4"
deadpool = "0.9"
diesel = { version = "2.0", features = ["postgres_backend", "chrono"] }
diesel-async = { version = "0.2", features = ["postgres", "deadpool"] }
dotenv = "0.15"
envconfig = "0.10"
infer = "0.13"
itertools = "0.10"
jsonwebtoken = "8"
lazy_static = "1"
lettre = { version = "0.10", default-features = false, features = ["builder", "smtp-transport", "tokio1-rustls-tls"] }
mime = "0.3"
nanoid = "0.4"
password-hash = { version = "0.4", features = ["std"] }
rand = "0.8"
serde = { version = "1", features = ["derive"] }
serde_json = "1"
sha2 = "0.10"
tokio = { version = "1", features = ["full"] }
tower-http = { version = "0.3", features = ["fs", "cors"] }
