[package]
name = "cardboard"
version = "0.1.0"
edition = "2021"
publish = false

[dependencies]
handlebars = "*"
knuffel = "*"
miette = "*"
thiserror = "*"
clap = { version = "*", features = ["derive"] }
csv = "*"
calamine = "*"
serde = "*"
sys-locale = "*"
oxilangtag = "*"
chrono = "*"
skia-safe = "*"
