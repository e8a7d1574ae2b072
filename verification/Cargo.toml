[package]
name = "hxy"
version = "0.1.0"
edition = "2021"
publish = false

[dependencies]
clap = "=4.6.7"
crossbeam-channel = "=0.5.17"
dirs = "6"
eframe = { version = "0.34", default-features = false, features = ["glow", "default_fonts", "x11", "wayland"] }
egui = "0.34"
egui_dock = "0.19"
egui_inbox = "0.11"
egui-phosphor = "0.12"
jiff = "=0.2.39"
rfd = { version = "=0.17.2", default-features = false, features = ["xdg-portal"] }
serde_json = "=1.0.154"
tempfile = "=3.27.0"
tracing = "=0.1.44"
