[package]
name = "termix"
version = "0.1.0"
edition = "2021"
publish = false

[dependencies]
alacritty_terminal = "0.25"
anyhow = "1"
fontdue = "0.9"
portable-pty = "0.8"
smithay-client-toolkit = "0.19"
tokio = { version = "1", features = ["macros", "rt-multi-thread", "signal"] }
tracing = "0.1"
tracing-subscriber = "0.3"
wayland-client = "0.31"
zbus = "5"
