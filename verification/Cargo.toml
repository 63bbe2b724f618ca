[package]
name = "recipe_media"
version = "0.1.0"
edition = "2021"
publish = false

[dependencies]
regex = "1"
image = { version = "0.24", default-features = false, features = ["jpeg"] }
rayon = "1"
hound = "3"
rubato = "0.15"
log = "0.4"
num_cpus = "1"
once_cell = "1"
thiserror = "1"
serde = { version = "1", features = ["derive"] }
serde_json = "1"
scraper = "0.29"
reqwest = { version = "0.12", features = ["blocking"] }
android_logger = "0.15"
flutter_rust_bridge = "2"
