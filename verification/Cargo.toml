[package]
name = "lansec"
version = "0.1.0"
edition = "2021"
publish = false

[dependencies]
aes-gcm = "0.10"
anyhow = "1"
clap = { version = "4", default-features = false, features = ["derive", "std", "help", "usage"] }
eframe = { version = "0.29", default-features = false, features = ["default_fonts", "glow", "x11"] }
hkdf = "0.12"
libc = "0.2"
opus-rs = "*"
parking_lot = "0.12"
postcard = { version = "1", default-features = false, features = ["alloc"] }
rand = "0.8"
raw-window-handle = "0.6"
serde = { version = "1", features = ["derive"] }
serde_json = "1"
sha2 = "0.10"
thiserror = "2"
tracing = "0.1"
tracing-subscriber = { version = "0.3", default-features = false, features = ["env-filter", "fmt"] }
winit = { version = "0.30", default-features = false, features = ["x11", "rwh_06"] }
x25519-dalek = { version = "2", features = ["static_secrets"] }
