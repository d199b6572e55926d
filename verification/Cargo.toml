[package]
name = "nox"
version = "0.1.0"
edition = "2021"
publish = false

[dependencies]
tl = "*"
html2text = "*"
zstd = "*"
nucleo = "*"
ureq = "*"
clap = { version = "*", features = ["derive"] }
ratatui = "*"
crossterm = "*"
tui-widget-list = "*"
open = "*"
directories = "*"
figment = { version = "*", features = ["env", "toml"] }
serde = { version = "*", features = ["derive"] }
toml = "*"
humantime-serde = "*"
tracing = "*"
tracing-error = "*"
tracing-subscriber = { version = "*", features = ["env-filter"] }
color-eyre = "*"
