[package]
name = "dbus_handshake"
version = "0.1.0"
edition = "2021"
publish = false

[dependencies]
nix = { version = "0.26", features = ["poll", "socket", "uio", "user"] }
