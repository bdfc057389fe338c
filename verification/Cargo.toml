[package]
name = "linkcache"
version = "0.1.0"
edition = "2021"
publish = false

[dependencies]
alfrusco = "*"
chrono = { version = "0.4", default-features = false, features = ["clock", "std"] }
clap = { version = "4", features = ["derive", "env"] }
dirs = "*"
env_logger = "*"
filetime = "*"
itertools = "*"
log = "0.4"
rusqlite = { version = "*", features = ["bundled", "chrono"] }
rusqlite_migration = "*"
rust-ini = "*"
serde = { version = "1", features = ["derive"] }
serde_json = "1"
sublime_fuzzy = "*"

[dev-dependencies]
tempfile = "3"
