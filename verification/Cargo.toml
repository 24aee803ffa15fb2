[package]
name = "cosmic-applet-privacy"
version = "0.1.0"
edition = "2021"
publish = false

[dependencies]
rustc-hash = "=2.1.3"
futures = "=0.3.34"
glob = "=0.3.4"
tracing = "=0.1.44"
pipewire = "0.9"
