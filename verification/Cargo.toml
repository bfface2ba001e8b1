[package]
name = "legitima"
version = "0.1.0"
edition = "2021"
publish = false

[dependencies]
hmac = "=0.12.1"
sha2 = "=0.10.9"
hex = "=0.4.3"
rand = "=0.8.8"
chrono = "=0.4.45"
totp-rs = { version = "=5.7.2", features = ["otpauth", "gen_secret", "qr"] }
uuid = { version = "=1.29.0", features = ["serde"] }
serde = { version = "1", features = ["derive"] }
serde_json = "1"
thiserror = "1"
url = { version = "2", features = ["serde"] }
rocket = { version = "=0.5.2", features = ["json", "secrets", "uuid"] }
rocket_db_pools = { version = "=0.2.0", features = ["deadpool_redis", "sqlx_postgres"] }
rocket_dyn_templates = { version = "=0.2.0", features = ["minijinja"] }
sqlx = { version = "=0.7.4", default-features = false, features = ["postgres", "uuid", "json", "runtime-tokio-rustls"] }
ldap3 = { version = "=0.11.5", default-features = false, features = ["sync"] }
ory-hydra-client = "=1.11.8"
webauthn-rs = "=0.3.2"
