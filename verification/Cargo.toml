[package]
name = "micro_sequentia"
version = "0.1.0"
edition = "2021"
publish = false

[dependencies]
eframe = { version = "=0.33.3", default-features = false, features = ["default_fonts", "glow", "x11"] }
rfd = { version = "=0.17.2", default-features = false, features = ["xdg-portal"] }
