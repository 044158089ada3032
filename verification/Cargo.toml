[package]
name = "beautyxt_rs"
version = "0.1.0"
edition = "2021"
publish = false

[dependencies]
chrono = "=0.4.45"
comemo = "=0.4.0"
libc = "=0.2.191"
once_cell = "=1.21.4"
thiserror = "=1.0.69"
ttf-parser = "=0.20.0"
typst = "=0.11.1"
typst-pdf = "=0.11.1"
typst-svg = "=0.11.1"
uniffi = "=0.25.3"

[dev-dependencies]
typst-assets = { version = "=0.11.1", features = ["fonts"] }
