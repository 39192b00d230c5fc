[package]
name = "musing"
version = "0.1.0"
edition = "2021"
publish = false

[dependencies]
regex = "1"
unidecode = "0.3"
toml = "0.8"
dirs = "5"
serde = { version = "1", features = ["derive"] }
serde_json = "1"
bincode = "2"
clap = { version = "4", features = ["derive"] }
tokio = { version = "1", features = ["full"] }
cpal = "0.15"
symphonia = "0.5"
rubato = "0.15"
crossbeam-channel = "0.5"
rayon = "1"
jwalk = "0.8"
dunce = "1"
log = "0.4"
simple-logging = "2"
anyhow = "1"
