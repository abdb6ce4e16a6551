[package]
name = "let_engine"
version = "0.1.0"
edition = "2021"
publish = false

[dependencies]
anyhow = "=1.0.104"
image = { version = "=0.25.10", default-features = false, features = ["png", "jpeg", "bmp", "gif", "ico", "tga", "tiff", "webp", "pnm", "qoi", "hdr", "dds", "ff"] }
bincode = { version = "=2.0.1", features = ["serde"] }
serde = { version = "=1.0.229", features = ["derive"] }
flate2 = "=1.1.10"
bzip2 = "=0.6.1"
zstd = "=0.13.4"
xz2 = "=0.1.7"
lz4 = "=1.28.1"
slotmap = "=1.1.1"
foldhash = "=0.2.0"
parking_lot = "=0.12.5"
thiserror = "=2.0.21"
glam = "=0.30.10"
half = "=2.7.1"
kira = { version = "=0.10.8", default-features = false }
toml = "=0.8.23"
