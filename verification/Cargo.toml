[package]
name = "esrs"
version = "0.1.0"
edition = "2021"
publish = false

[dependencies]
serde_json = "=1.0.154"
uuid = { version = "=1.29.0", features = ["v4", "serde"] }
serde = { version = "=1.0.229", features = ["derive"] }
tokio = { version = "=1.54.1", features = ["macros", "rt-multi-thread", "sync"] }
tokio-stream = "=0.1.19"
actix-web = { version = "=4.18.1", default-features = false, features = ["macros", "ws"] }
actix-ws = "=0.2.5"
actix-cors = "=0.7.2"
actix-files = "=0.6.10"
tracing-actix-web = "=0.7.25"
tracing = "=0.1.44"
log = "=0.4.34"
sqlx = { version = "=0.7.4", default-features = false, features = ["runtime-tokio", "postgres", "uuid"] }
leptos = { version = "=0.6.15", default-features = false, features = ["ssr"] }
anyhow = "=1.0.104"
thiserror = "=1.0.69"
config = { version = "=0.14.1", default-features = false, features = ["yaml"] }
secrecy = { version = "=0.8.0", features = ["serde"] }
serde-aux = "=4.7.0"
