[package]
name = "webcord"
version = "0.1.0"
edition = "2021"
publish = false

[dependencies]
fancy-regex = "0.16"
rocket = { version = "=0.5.2", features = ["json"] }
rocket_dyn_templates = { version = "=0.1.0", features = ["tera"] }
serenity = "=0.11.7"
ciborium = "=0.2.2"
toml = "=0.7.8"
