[package]
name = "gitgobig"
version = "0.1.0"
edition = "2021"
publish = false

[dependencies]
regex = "=1.13.1"
anyhow = "=1.0.104"
dirs = "=7.0.0"
serde = { version = "=1.0.229", features = ["derive"] }
serde_json = "=1.0.154"
opener = "=0.9.0"
rfd = { version = "=0.17.2", default-features = false, features = ["xdg-portal"] }
tokio = { version = "=1.54.1", features = ["process", "io-util", "macros", "rt-multi-thread"] }
iced = { version = "=0.14.0", default-features = false, features = ["tokio", "canvas", "tiny-skia", "x11"] }
