[package]
name = "finall"
version = "0.1.0"
edition = "2021"
publish = false

[dependencies]
bigdecimal = "0.4"
sha2 = "0.10"
getrandom = "0.3"
argon2 = "*"
csv = "1"
chrono = "0.4"
uuid = "1"
serde = { version = "1", features = ["derive"] }
serde_json = { version = "1", features = ["raw_value"] }
thiserror = "2"
pdf-extract = "*"
tokio = { version = "1", features = ["rt-multi-thread", "macros", "time"] }
sqlx = { version = "0.8", default-features = false, features = ["postgres", "runtime-tokio", "chrono", "uuid", "bigdecimal"] }
reqwest = { version = "0.12", default-features = false }
axum = { version = "0.8", default-features = false, features = ["http1", "tokio"] }
