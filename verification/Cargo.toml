[package]
name = "osci"
version = "0.1.0"
edition = "2021"
publish = false

[dependencies]
itertools = "0.10"
eframe = { version = "0.22", default-features = false, features = ["glow"] }
egui = { version = "0.22", default-features = false }
jack = "0.11"
