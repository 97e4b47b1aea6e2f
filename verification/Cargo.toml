[package]
name = "ytdlp-ui"
version = "0.1.0"
edition = "2021"
publish = false

[dependencies]
arboard = { version = "3", default-features = false }
eframe = { version = "=0.34.3", default-features = false, features = ["default_fonts", "glow", "x11"] }
encoding_rs = "=0.8.44"
raw-window-handle = "0.6"
reqwest = { version = "0.12", default-features = false, features = ["blocking", "json", "rustls-tls"] }
rfd = { version = "0.17", default-features = false, features = ["xdg-portal"] }
semver = "=1.0.28"
serde = { version = "1", features = ["derive"] }
serde_json = "=1.0.154"
sha2 = "=0.10.9"
toml = "0.8"
windows-sys = { version = "0.59", features = ["Win32_Foundation", "Win32_Graphics_Dwm", "Win32_Graphics_Gdi"] }
zip = { version = "=2.6.1", default-features = false, features = ["deflate"] }
