[package]
name = "gossamer"
version = "0.1.0"
edition = "2021"
publish = false

[dependencies]
harsh = "0.2"
url = "2"
rocksdb = { version = "*", default-features = false }
actix-web = { version = "4", default-features = false, features = ["macros"] }
actix-files = "0.6"
askama = "0.11"
serde = { version = "1", features = ["derive"] }
thiserror = "1"
dotenv = "0.15"
once_cell = "1"
