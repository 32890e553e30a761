[package]
name = "ouch"
version = "0.1.0"
edition = "2021"
publish = false

[dependencies]
flate2 = "*"
bzip2 = "*"
lzma-rs = "*"
lz4_flex = "*"
zstd = "*"
tar = "*"
zip = { version = "*", default-features = false, features = ["deflate"] }
walkdir = "*"
fs-err = "*"
