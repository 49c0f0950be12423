[package]
name = "simplsource"
version = "0.1.0"
edition = "2021"
publish = false

[dependencies]
sqlparser = "*"
csv = "1"
serde = { version = "1", features = ["derive"] }
serde_json = "1"
uuid = { version = "1", features = ["v4", "serde"] }
urlencoding = "2"
sha2 = "0.10"
aes-gcm = "0.10"
base64 = "0.22"
rand = "0.8"
chrono = { version = "0.4", features = ["serde"] }
thiserror = "2"
dirs = "*"
keyring = "3"
tokio = { version = "1", features = ["sync", "rt-multi-thread", "macros"] }
async-trait = "0.1"
sqlx = { version = "0.8", default-features = false, features = ["runtime-tokio", "postgres", "mysql", "sqlite", "json"] }
ssh2 = "0.9"
rust_xlsxwriter = "*"
tracing = "0.1"
