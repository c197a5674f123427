[package]
name = "backend"
version = "0.1.0"
edition = "2021"
publish = false

[dependencies]
argon2 = "0.5"
rand = "0.8"
sha2 = "0.10"
aes-gcm = "0.10"
rsa = "0.9"
chrono = "0.4"
rocket = { version = "0.5", features = ["json", "secrets"] }
rocket_db_pools = { version = "0.2", features = ["sqlx_sqlite"] }
rocket_dyn_templates = { version = "0.2", features = ["tera"] }
rocket_ws = "0.1"
rocket_cors = "0.6"
dotenv = "0.15"
figment = { version = "0.10", features = ["env"] }
tokio = { version = "1", features = ["time", "macros", "rt-multi-thread"] }
serde_json = "1"
toml = "0.8"
tracing = "0.1"
