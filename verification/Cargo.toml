[package]
name = "image_compress"
version = "0.1.0"
edition = "2021"
publish = false

[dependencies]
image = "=0.25.10"
imagequant = "=4.4.1"
imgref = "=1.12.3"
png = "=0.17.16"
ravif = { version = "=0.13.0", default-features = false, features = ["threading"] }
rayon = "=1.12.0"
rgb = "=0.8.53"
serde = { version = "=1.0.229", features = ["derive"] }
serde_json = "=1.0.154"
webp = "=0.3.1"
