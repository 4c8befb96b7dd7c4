[package]
name = "rufium"
version = "0.1.0"
edition = "2021"
publish = false

[dependencies]
pdfium-render = "=0.9.4"
clap = { version = "=4.6.7", default-features = false, features = ["std", "derive", "help", "usage"] }
iced = { version = "=0.14.0", default-features = false, features = ["tiny-skia", "image", "tokio", "x11", "wayland", "thread-pool"] }
