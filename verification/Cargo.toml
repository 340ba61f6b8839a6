[package]
name = "spotfreeze"
version = "0.1.0"
edition = "2021"
publish = false

[dependencies]
anyhow = "1"
calloop = "0.14"
jsonc-parser = { version = "*", features = ["serde_json"] }
libc = "0.2"
png = "0.18"
rustix = { version = "1", features = ["fs", "mm", "net", "pipe"] }
serde = { version = "1", features = ["derive"] }
serde_json = "1"
wayland-client = "0.31"
wayland-protocols = { version = "0.32", features = ["client", "unstable"] }
wayland-protocols-wlr = { version = "0.3", features = ["client"] }
