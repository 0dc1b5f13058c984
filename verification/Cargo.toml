[package]
name = "waycast"
version = "0.1.0"
edition = "2021"
publish = false

[dependencies]
nucleo-matcher = "0.3"
mathengine = "*"
serde = { version = "1", features = ["derive"] }
serde_json = "1"
bincode = "1.3"
redb = "*"
walkdir = "2"
directories = "*"
dirs = "*"
freedesktop = "*"
tokei = "*"
tokio = { version = "1", features = ["rt-multi-thread", "net", "io-util", "time", "macros", "sync"] }
async-trait = "0.1"
thiserror = "*"
libc = "0.2"
config = "*"

[dev-dependencies]
tempfile = "3"
