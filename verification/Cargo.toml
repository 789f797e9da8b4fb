[package]
name = "flow_monitor"
version = "0.1.0"
edition = "2021"
publish = false

[dependencies]
eframe = { version = "0.29", default-features = false, features = ["default_fonts", "glow", "x11"] }
egui_plot = "0.29"
futures = "0.3"
tokio = { version = "1", features = ["io-util", "macros", "net", "rt-multi-thread", "time"] }
