[package]
name = "helix_dadbod"
version = "0.1.0"
edition = "2021"
publish = false

[dependencies]
anyhow = "1"
async-trait = "0.1"
base64 = "0.22"
chrono = "0.4"
comfy-table = "7"
dirs = "5"
hex = "0.4"
hmac = "0.12"
log = "0.4"
once_cell = "1"
russh = "0.44"
russh-keys = "0.44"
serde = { version = "1", features = ["derive"] }
serde_json = "1"
sha1 = "0.10"
simplelog = "0.12"
tokio = { version = "1", features = ["rt-multi-thread", "net", "io-util", "sync", "time", "macros"] }
tokio-postgres = { version = "0.7", features = ["with-chrono-0_4", "with-serde_json-1", "with-uuid-1"] }
toml = "0.8"
uuid = "1"
