[package]
name = "nixos-update-checker"
version = "0.1.0"
edition = "2021"
publish = false

[dependencies]
regex = "1"
chrono = "0.4"
chrono-humanize = "0.2"
serde = { version = "1", features = ["derive"] }
serde_json = "1"
toml = "0.8"
directories = "5"
tokio = { version = "1", features = ["process", "rt-multi-thread"] }
thiserror = "1"
libc = "0.2"
once_cell = "1"
