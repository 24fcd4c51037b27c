[package]
name = "svgcard"
version = "0.1.0"
edition = "2021"
publish = false

[dependencies]
anyhow = "1"
cairo-rs = { version = "0.15", features = ["pdf"] }
pango = "0.15"
pangocairo = "0.15"
regex = "1"
serde = { version = "1", features = ["derive"] }
structopt = "0.3"
toml = "0.5"
