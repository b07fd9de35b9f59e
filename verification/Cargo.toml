[package]
name = "comde"
version = "0.1.0"
edition = "2021"
publish = false

[dependencies]
flate2 = "*"
snap = "*"
xz2 = "*"
zstd = "*"
brotli = "*"
phf_shared = "*"
phf_generator = "*"
