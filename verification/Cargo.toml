[package]
name = "lumik"
version = "0.1.0"
edition = "2021"
publish = false

[dependencies]
base64 = "0.22"
chrono = "0.4"
uuid = { version = "1", features = ["v4"] }
log = "0.4"
env_logger = "0.11"
serde = { version = "1", features = ["derive"] }
serde_json = "1"
thiserror = "2"
rusqlite = { version = "0.32", features = ["bundled"] }
dirs = "6"
sysinfo = "0.33"
libc = "0.2"
image = { version = "0.25", default-features = false, features = ["jpeg", "tiff"] }
tiff = "0.9"
kamadak-exif = "0.6"
