[package]
name = "streamdeck_mobile"
version = "0.1.0"
edition = "2021"
publish = false

[dependencies]
anyhow = "1"
base64 = "0.22"
blake2 = "0.10"
crypto_box = { version = "0.9", features = ["salsa20", "getrandom"] }
futures = "0.3"
image = { version = "0.25", default-features = false, features = ["bmp", "dds", "exr", "ff", "gif", "hdr", "ico", "jpeg", "png", "pnm", "qoi", "tga", "tiff", "webp"] }
log = "0.4"
prost = "0.13"
qrcodegen = "1"
serde = { version = "1", features = ["derive"] }
serde_json = "1"
tokio = { version = "1", features = ["macros", "net", "rt-multi-thread", "sync", "time"] }
tokio-tungstenite = "0.26"
urlencoding = "2"
