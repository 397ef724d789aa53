[package]
name = "poshanka"
version = "0.1.0"
edition = "2021"
publish = false

[dependencies]
serde = { version = "=1.0.229", features = ["derive"] }
serde_json = "=1.0.154"
toml = "=1.1.8"
thiserror = "=2.0.21"
tracing = "=0.1.44"
tracing-subscriber = { version = "=0.3.23", features = ["env-filter"] }
clap = { version = "=4.6.7", features = ["derive"] }
wayland-client = "=0.31.15"
wayland-protocols-wlr = { version = "=0.3.12", features = ["client"] }
rustix = { version = "=1.1.6", features = ["event"] }
tempfile = "=3.27.0"
cairo-rs = { version = "=0.22.9", features = ["png"] }
pango = "=0.22.9"
pangocairo = "=0.22.9"
resvg = "=0.49.0"
base64 = "=0.23.1"
