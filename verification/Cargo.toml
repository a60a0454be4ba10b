[package]
name = "er_commander"
version = "1.0.0"
edition = "2021"
publish = false

[dependencies]
chrono = { version = "0.4", default-features = false, features = ["clock", "std"] }
egui = "0.28"
md-5 = "0.11"
notify = { version = "6", default-features = false, features = ["macos_fsevent"] }
rayon = "1"
regex = "1"
reqwest = { version = "0.12", default-features = false, features = ["blocking", "rustls-tls"] }
serde_json = "1"
sha2 = "0.11"
walkdir = "2"
zip = { version = "0.6", default-features = false, features = ["deflate"] }
