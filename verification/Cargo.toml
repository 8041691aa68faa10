[package]
name = "rustpad"
version = "0.1.0"
edition = "2021"
publish = false

[dependencies]
chrono = "=0.4.45"
dirs = "=7.0.0"
arboard = "=3.7.0"
rfd = { version = "=0.17.2", default-features = false, features = ["xdg-portal"] }
iced = { version = "=0.14.0", default-features = false, features = ["tiny-skia", "advanced", "thread-pool", "x11"] }
