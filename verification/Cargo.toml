[package]
name = "ricercar"
version = "0.1.0"
edition = "2021"
publish = false

[dependencies]
alsa = "*"
crossbeam-channel = "0.5"
ctrlc = "3"
image = { version = "0.25", default-features = false, features = ["jpeg", "png", "webp"] }
lofty = "*"
md-5 = "0.10"
notify = "*"
rayon = "1"
rusqlite = { version = "*", features = ["bundled"] }
serde = { version = "1", features = ["derive"] }
serde_json = "1"
symphonia = { version = "*", features = ["all"] }
thiserror = "2"
toml = "0.8"
tracing = "0.1"
tracing-subscriber = { version = "0.3", features = ["env-filter"] }
ureq = { version = "2", features = ["json"] }
walkdir = "2"
zbus = "5"
