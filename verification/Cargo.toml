[package]
name = "budget2"
version = "0.1.0"
edition = "2021"
publish = false

[dependencies]
csv = "=1.4.0"
encoding_rs = "=0.8.44"
chrono = { version = "=0.4.45", default-features = false, features = ["alloc", "std"] }
rand = "=0.9.5"
serde = { version = "=1.0.229", features = ["derive"] }
axum = { version = "=0.7.9", features = ["multipart", "macros"] }
tokio = { version = "=1.54.1", features = ["macros", "rt-multi-thread", "net", "fs"] }
sqlx = { version = "=0.8.6", default-features = false, features = ["sqlite", "runtime-tokio", "migrate"] }
tower-sessions = "=0.12.3"
tower-sessions-sqlx-store = { version = "=0.13.0", features = ["sqlite"] }
tower-http = { version = "=0.5.2", features = ["trace"] }
tracing = "=0.1.44"
tracing-subscriber = { version = "=0.3.23", features = ["env-filter"] }
dotenv = "=0.15.0"
time = "=0.3.55"
oauth2 = { version = "=4.4.2", default-features = false, features = ["reqwest", "rustls-tls"] }
reqwest = { version = "=0.11.27", default-features = false, features = ["json", "rustls-tls"] }
