[package]
name = "sentry_mobi"
version = "0.1.0"
edition = "2021"
publish = false

[dependencies]
serde_json = "1"
axum = "*"
axum-extra = { version = "*", features = ["typed-routing"] }
axum-htmx = "*"
tokio = { version = "*", features = ["macros", "rt-multi-thread", "net"] }
tower-sessions = "*"
reqwest = { version = "*", default-features = false, features = ["json"] }
serde = { version = "*", features = ["derive"] }
maud = { version = "*", features = ["axum"] }
time = "*"
jiff = { version = "*", features = ["serde"] }
url = "*"
thiserror = "*"
tracing = "*"
tracing-subscriber = "*"
async-trait = "*"
