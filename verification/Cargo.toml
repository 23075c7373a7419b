[package]
name = "cargo-xbuild"
version = "0.1.0"
edition = "2021"
publish = false

[dependencies]
anyhow = "1"
cargo_metadata = "0.12"
libc = "0.2"
rustc_version = "0.4"
serde = { version = "1", features = ["derive"] }
serde_json = "1"
tempfile = "3"
toml = "0.5"
walkdir = "2"
winapi = { version = "0.3", features = ["fileapi", "minwinbase", "minwindef", "winerror", "winnt"] }
