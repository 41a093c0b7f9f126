[package]
name = "epic_asset_manager"
version = "0.1.0"
edition = "2021"
publish = false

[dependencies]
hex = "=0.4.3"
chrono = "=0.4.45"
egs-api = "=0.14.0"
gtk4 = "=0.4.9"
libadwaita = "=0.1.1"
gtk-macros = "=0.3.0"
log = "=0.4.35"
once_cell = "=1.21.4"
serde = { version = "=1.0.229", features = ["derive"] }
serde_json = "=1.0.154"
threadpool = "=1.8.1"
