[package]
name = "aichat_core"
version = "0.1.0"
edition = "2021"
publish = false

[dependencies]
anyhow = "=1.0.104"
chrono = "=0.4.45"
crossterm = "=0.29.0"
is-terminal = "=0.4.17"
nu-ansi-term = "=0.50.3"
reedline = "=0.38.0"
shell-words = "=1.1.1"
textwrap = "=0.16.4"
tokio = { version = "=1.54.1", features = ["rt", "rt-multi-thread", "macros", "sync", "time"] }

[dev-dependencies]
fancy-regex = "=0.19.2"
