[package]
name = "hydro-to-capsys"
version = "0.1.0"
edition = "2021"
publish = false

[dependencies]
hydro_lang = { version = "=0.16.0", default-features = false, features = ["build"] }
serde = { version = "=1.0.229", features = ["derive"] }
serde_json = "=1.0.154"
slotmap = "=1.1.1"
