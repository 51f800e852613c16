[package]
name = "chatproto"
version = "0.1.0"
edition = "2021"
publish = false

[dependencies]
openssl = "0.10"
rusqlite = { version = "*", features = ["bundled"] }
rustyline = "*"
termion = "*"
