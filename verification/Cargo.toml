[package]
name = "osd_text"
version = "0.1.0"
edition = "2021"
publish = false

[dependencies]
fontdue = "=0.9.4"
macroquad = "=0.4.16"
chrono = "=0.4.45"
bumpalo = { version = "=3.20.3", features = ["collections"] }
