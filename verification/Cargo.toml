[package]
name = "gallery_sorter"
version = "0.1.0"
edition = "2021"
publish = false

[dependencies]
anyhow = "=1.0.104"
chrono = "=0.4.45"
clap = { version = "=4.6.7", features = ["derive"] }
crossterm = "=0.28.1"
ctrlc = "=3.5.2"
filetime = "=0.2.29"
kamadak-exif = "=0.6.1"
nix = { version = "=0.29.0", features = ["user"] }
ratatui = "=0.29.0"
rayon = "=1.12.0"
regex = "=1.13.1"
serde = { version = "=1.0.229", features = ["derive"] }
serde_json = "=1.0.154"
toml = "=0.8.23"
tracing = "=0.1.44"
tracing-appender = "=0.2.5"
tracing-subscriber = { version = "=0.3.23", features = ["env-filter", "json"] }
walkdir = "=2.5.0"
winapi = { version = "=0.3.9", features = ["fileapi", "handleapi", "processthreadsapi", "securitybaseapi", "shellapi", "winnt", "winuser", "minwindef"] }
