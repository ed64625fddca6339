[package]
name = "chat_cleaner"
version = "0.1.0"
edition = "2021"
publish = false

[dependencies]
anyhow = "=1.0.104"
axum = "=0.6.20"
base64 = "=0.21.7"
chrono = "=0.4.45"
dashmap = "=5.5.3"
dotenv = "=0.15.0"
futures = "=0.3.34"
serde = { version = "=1.0.229", features = ["derive"] }
sqlx = { version = "=0.7.4", default-features = false, features = ["runtime-tokio", "postgres", "migrate"] }
# teloxide-core asks for takecell 0.1; its release 0.1.2 needs a newer
# compiler than the rest of the crates, so the release before it is named.
takecell = "=0.1.1"
teloxide = { version = "=0.12.2", default-features = false, features = ["rustls", "throttle"] }
tokio = { version = "=1.54.1", features = ["rt-multi-thread", "macros", "time", "sync"] }
tower-http = { version = "=0.4.4", features = ["cors"] }
tracing = "=0.1.44"
tracing-subscriber = { version = "=0.3.23", features = ["env-filter"] }
