[package]
name = "moon_core"
version = "0.1.0"
edition = "2021"
publish = false

[dependencies]
console = "0.15"
miette = "5.10"
once_map = "0.4"
regex = "1.9"
rustc-hash = "1.1"
serde = { version = "1", features = ["derive"] }
serde_json = "1"
starbase_styles = "0.1"
starbase_utils = { version = "0.2", features = ["glob"] }
tera = { version = "1.19", default-features = false }
thiserror = "1"
tracing = "0.1"
