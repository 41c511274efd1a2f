[package]
name = "mdown"
version = "0.1.0"
edition = "2021"
publish = false

[dependencies]
regex = "1"
uuid = "1"
chrono = "0.4"
percent-encoding = "2"
base64 = "0.21"
sha2 = "0.10"
semver = "1"
serde = { version = "1", features = ["derive"] }
serde_json = "1"
reqwest = { version = "0.12", default-features = false, features = ["json"] }
tokio = { version = "1", features = ["rt-multi-thread", "macros", "time"] }
clap = { version = "4", features = ["derive"] }
zip = { version = "0.6", default-features = false }
rusqlite = { version = "0.31", features = ["bundled"] }
walkdir = "2"
glob = "0.3"
ctrlc = "3"
webbrowser = "1"
if-addrs = "0.13"
crossterm = "0.27"
lazy_static = "1"
parking_lot = "0.12"
tracing = "0.1"
tracing-subscriber = "0.3"
bytefmt = "0.1"
rand = "0.8"
thiserror = "1"
crosscurses = "*"
