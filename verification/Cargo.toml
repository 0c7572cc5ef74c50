[package]
name = "everyfile"
version = "0.1.0"
edition = "2021"
publish = false

[dependencies]
rand = "*"
reqwest = { version = "*", default-features = false }
serde = { version = "1", features = ["derive"] }
serde_json = "1"
thiserror = "*"
ignore = "*"
parking_lot = "*"
rust_xlsxwriter = { version = "*", default-features = false }
rusqlite = { version = "*", features = ["bundled"] }
zeroize = "*"
