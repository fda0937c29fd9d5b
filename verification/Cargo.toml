[package]
name = "codex-profiles"
version = "0.1.0"
edition = "2021"
publish = false

[dependencies]
anyhow = "1"
base64 = "0.22"
chrono = "0.4"
clap = { version = "4", features = ["derive"] }
colored = "*"
directories = "*"
fslock = "0.2"
inquire = "*"
rayon = "1"
serde = { version = "1", features = ["derive"] }
serde_json = "1"
serde_with = "3"
shlex = "1"
spinner = "*"
supports-color = "*"
toml = "*"
ureq = { version = "3", features = ["json"] }

[dev-dependencies]
tempfile = "3"
