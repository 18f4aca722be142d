[package]
name = "novel_cli"
version = "0.1.0"
edition = "2021"
publish = false

[dependencies]
hashbrown = "=0.14.5"
html-escape = "=0.2.15"
sanitize-filename = "=0.5.0"
memchr = "=2.8.3"
serde = { version = "=1.0.229", features = ["derive"] }
serde_yaml = "=0.9.34"
pulldown-cmark = { version = "=0.10.3", default-features = false }
pulldown-cmark-to-cmark = "=13.0.0"
clap = { version = "=4.6.7", features = ["derive"] }
clap_complete = "=4.6.11"
walkdir = "=2.5.0"
dunce = "=1.0.5"
anyhow = "=1.0.104"
toml = "=0.8.23"
zip = { version = "=0.6.6", default-features = false, features = ["deflate"] }
image = { version = "=0.25.10", default-features = false, features = ["png", "jpeg", "webp"] }
tokio = { version = "=1.54.1", features = ["full"] }
pathdiff = "=0.2.3"
url = "=2.5.8"
crossterm = "=0.29.0"
ratatui = "=0.30.2"
tui-tree-widget = "=0.24.1"
comfy-table = "=8.0.1"
console = "=0.16.6"
tracing = "=0.1.44"
color-eyre = { version = "=0.6.5", default-features = false }
dialoguer = { version = "=0.12.0", default-features = false, features = ["password"] }
indicatif = "=0.18.6"
simdutf8 = "=0.1.5"
fluent-templates = "=0.15.1"
