[package]
name = "pkgforge"
version = "0.1.0"
edition = "2021"
publish = false

[dependencies]
crypto-hash = "*"
hex-slice = "*"
target = "*"
tempfile = "*"
mkdirp = "*"
plist = "*"
serde = { version = "1", features = ["derive"] }
serde_derive = "1"
serde_yaml = "*"
