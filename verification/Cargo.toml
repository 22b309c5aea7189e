[package]
name = "hikaru"
version = "0.1.0"
edition = "2021"
publish = false

[dependencies]
cpal = "*"
hound = "*"
libc = "*"
libloading = "*"
raw-window-handle = "*"
realfft = "*"
rustfft = "*"
