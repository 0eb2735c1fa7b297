[package]
name = "ferro-core"
version = "0.1.0"
edition = "2021"
publish = false

[dependencies]
mail-parser = "=0.11.9"
unicode-width = "=0.2.3"
anyhow = "=1.0.104"
clap = { version = "=4.6.7", features = ["derive"] }
crossterm = "=0.29.0"
dirs = "=7.0.0"
keyring = "=4.2.0"
native-tls = { version = "=0.2.18", features = ["vendored"] }
ratatui = "=0.30.2"
rpassword = "=7.5.4"
rusqlite = { version = "=0.41.1", features = ["bundled"] }
serde = { version = "=1.0.229", features = ["derive"] }
tantivy = "=0.27.0"
thiserror = "=2.0.21"
toml = "=1.1.8"
tui-input = "=0.15.5"
