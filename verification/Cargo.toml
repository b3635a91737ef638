[package]
name = "egemi"
version = "0.1.0"
edition = "2021"
publish = false

[dependencies]
clap = { version = "=4.6.7", features = ["derive"] }
eframe = { version = "=0.37.0", default-features = false, features = ["glow", "persistence", "x11", "default_fonts"] }
egui_extras = { version = "=0.37.0", features = ["svg"] }
egui_flex = "=0.9.0"
germ = "=0.5.2"
html2md = "=0.2.17"
log = "=0.4.34"
mime = "=0.3.17"
mime_guess = "=2.0.5"
pulldown-cmark = "=0.13.5"
reqwest = { version = "=0.12.28", default-features = false }
serde = { version = "=1.0.229", features = ["derive"] }
thiserror = "=2.0.21"
tl = "=0.7.8"
tokio = { version = "=1.54.1", features = ["rt-multi-thread", "fs", "time", "net"] }
url = "=2.5.8"

[dev-dependencies]
regex = "=1.13.1"
