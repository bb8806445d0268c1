[package]
name = "swipe_gestures"
version = "0.1.0"
edition = "2021"
publish = false

[dependencies]
input = "*"
nix = { version = "*", features = ["fs"] }
tokio = { version = "*", features = ["rt", "net"] }
xdg = "*"
yaml-rust = "*"
