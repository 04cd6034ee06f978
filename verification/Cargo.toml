[package]
name = "stream_desk"
version = "0.1.0"
edition = "2021"
publish = false

[dependencies]
aes-gcm = "0.10"
chrono = { version = "0.4", default-features = false, features = ["clock"] }
eframe = { version = "0.31", default-features = false, features = ["default_fonts", "glow", "x11"] }
egui_extras = { version = "0.31", default-features = false }
ftail = "0.2"
h264-reader = "0.8"
log = "0.4"
md5 = "0.7"
r2d2 = "0.8"
r2d2_sqlite = "0.28"
rand = "0.9"
rsa = "0.9"
rusqlite = { version = "0.35", features = ["bundled"] }
uuid = { version = "1", features = ["v4"] }
winapi = { version = "0.3", features = ["winuser"] }
