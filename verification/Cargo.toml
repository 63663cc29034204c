[package]
name = "authcore"
version = "0.1.0"
edition = "2021"
publish = false

[dependencies]
anyhow = "1"
argon2 = "0.5"
axum = "0.7"
axum-extra = { version = "0.9", features = ["cookie"] }
base64ct = { version = "1", features = ["alloc"] }
clap = { version = "4", features = ["derive"] }
console_error_panic_hook = "0.1"
cookie = "0.18"
ed25519-dalek = "2"
figment = { version = "0.10", features = ["toml", "env"] }
itertools = "0.13"
opaque-ke = { version = "3", features = ["argon2"] }
parking_lot = "0.12"
rand = "0.8"
rand_chacha = "0.3"
rand_core = { version = "0.6", features = ["getrandom"] }
rusqlite = "0.32"
serde = { version = "1", features = ["derive"] }
serde_json = "1"
strsim = "0.11"
thread_local = "1"
time = "0.3"
tokio = { version = "1", features = ["rt-multi-thread", "net", "macros"] }
tower-http = { version = "0.5", features = ["validate-request", "auth"] }
tracing = "0.1"
wasm-bindgen = "0.2"
zeroize = "1"
