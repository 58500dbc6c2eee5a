[package]
name = "sqlited"
version = "0.1.0"
edition = "2021"
publish = false

[dependencies]
md5 = "0.7"
sqlformat = "0.2"
uuid = { version = "1", features = ["v4"] }
chrono = "0.4"
rusqlite = { version = "0.32", features = ["bundled"] }
r2d2 = "0.8"
r2d2_sqlite = "0.25"
serde = { version = "1", features = ["derive"] }
serde_json = "1"
bincode = "1"
borsh = { version = "1", features = ["derive"] }
thiserror = "1"
anyhow = "1"
log = "0.4"
solana-pubkey = "*"
serde_sqlite_jsonb = "*"
