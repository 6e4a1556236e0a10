[package]
name = "runtimo_core"
version = "0.1.0"
edition = "2021"
publish = false

[dependencies]
libc = "0.2"
llmosafe = "*"
log = "0.4"
serde = { version = "1", features = ["derive"] }
serde_json = "1"
sha2 = "0.10"
thiserror = "*"
toml = "*"
unicode-normalization = "0.1"
