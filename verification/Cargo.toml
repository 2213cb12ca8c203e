[package]
name = "pioneer_converter"
version = "0.1.0"
edition = "2021"
publish = false

[dependencies]
symphonia = { version = "=0.5.5", features = ["all"] }
hound = "=3.5.1"
rubato = "=5.0.1"
audioadapter-buffers = "=5.2.0"
clap = { version = "=4.6.7", features = ["derive"] }
console = "=0.16.6"
indicatif = "=0.18.6"
inquire = "=0.9.4"
tokio = { version = "=1.54.1", features = ["full"] }
walkdir = "=2.5.0"
