[package]
name = "reading_catalog"
version = "0.1.0"
edition = "2021"
publish = false

[dependencies]
csv = "1"
urlencoding = "2"
serde = { version = "1", features = ["derive"] }
rusqlite = { version = "0.31", features = ["bundled"] }
reqwest = { version = "0.12", default-features = false, features = ["json"] }
