[package]
name = "popalarm"
version = "0.1.0"
edition = "2021"
publish = false

[dependencies]
chrono = { version = "0.4", default-features = false, features = ["std", "clock"] }
rust-ini = "0.18"
egui = { version = "0.22", default-features = false, features = ["default_fonts"] }
