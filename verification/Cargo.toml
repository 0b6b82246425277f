[package]
name = "kanban"
version = "0.1.0"
edition = "2021"
publish = false

[dependencies]
rand = "0.9"
hex = "0.4"
sha2 = "0.10"
form_urlencoded = "1"
garde = { version = "0.22", default-features = false, features = ["derive"] }
serde = { version = "1", features = ["derive"] }
serde_json = "1"
axum = { version = "0.8", features = ["ws"] }
tokio = { version = "1", features = ["macros", "rt-multi-thread", "net", "sync"] }
sqlx = { version = "0.8", default-features = false, features = ["sqlite", "runtime-tokio", "migrate"] }
askama = "0.14"
tower-sessions = "0.14"
tower-sessions-redis-store = "0.16"
tower-http = { version = "0.6", features = ["fs"] }
dashmap = "6"
dotenvy = "0.15"
oauth2 = { version = "5", default-features = false, features = ["reqwest", "rustls-tls"] }
reqwest = { version = "0.12", default-features = false, features = ["json", "rustls-tls"] }
