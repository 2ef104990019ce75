[package]
name = "kcd_bilingual_generator_rust"
version = "0.1.0"
edition = "2021"
publish = false

[dependencies]
directories = "=5.0.1"
eframe = { version = "*", default-features = false, features = ["default_fonts", "glow", "x11"] }
indexmap = "=2.14.2"
quick-xml = "=0.37.5"
rayon = "=1.12.0"
rfd = { version = "*", default-features = false, features = ["xdg-portal", "tokio"] }
thiserror = "=1.0.69"
tokio = { version = "=1.54.1", features = ["rt-multi-thread", "sync"] }
winreg = "=0.52.0"
zip = { version = "=2.6.1", default-features = false, features = ["deflate"] }
