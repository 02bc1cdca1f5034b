[package]
name = "counter_session"
version = "0.1.0"
edition = "2021"
publish = false

[dependencies]
eframe = { version = "=0.22.0", default-features = false, features = ["glow", "persistence"] }
egui = "=0.22.0"
serde = { version = "1", features = ["derive"] }
