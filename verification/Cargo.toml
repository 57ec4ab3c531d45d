[package]
name = "magazine_core"
version = "1.1.0"
edition = "2021"
publish = false

[dependencies]
base64 = "0.22"
getrandom = "0.2"
libc = "0.2"
reqwest = { version = "0.12", default-features = false, features = ["blocking"] }
rusqlite = { version = "0.32", features = ["bundled"] }
serde = { version = "1", features = ["derive"] }
serde_json = "1"
url = "2"
