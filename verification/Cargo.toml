[package]
name = "goose-hostops"
version = "0.1.0"
edition = "2021"
publish = false

[dependencies]
anyhow = "1"
axum-server = { version = "0.8", features = ["tls-rustls"] }
base64 = "0.22"
dirs = "6"
fs-err = "3"
ignore = "0.4"
libc = "0.2"
mime_guess = "2"
rcgen = "0.13"
rmcp = { version = "*", features = ["server", "macros", "schemars"] }
russh = { version = "*" }
rustls = { version = "0.23", default-features = false, features = ["ring", "std"] }
serde = { version = "1", features = ["derive"] }
shellexpand = "3"
tokio = { version = "1", features = ["process", "time", "sync", "rt", "rt-multi-thread", "macros"] }
which = "8"
