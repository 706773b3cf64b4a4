[package]
name = "stubr"
version = "0.1.0"
edition = "2021"
publish = false

[dependencies]
regex = "1"
serde = { version = "1", features = ["derive"] }
serde_json = "1"
clap = { version = "4", features = ["derive"] }
warp = "0.3"
tokio = { version = "1", features = ["full"] }
log = "0.4"
syn = { version = "1", features = ["full"] }
quote = "1"
proc-macro2 = "1"
