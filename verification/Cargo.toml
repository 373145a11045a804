[package]
name = "barcode_bot"
version = "0.1.0"
edition = "2021"
publish = false

[dependencies]
anyhow = "=1.0.104"
barcoders = { version = "=2.0.0", features = ["image"] }
chrono = "=0.4.45"
clap = { version = "=4.6.7", features = ["cargo"] }
env_logger = "=0.11.11"
image = { version = "=0.25.10", default-features = false, features = ["png"] }
kstool = "=0.3.4"
log = "=0.4.34"
regex = "=1.13.1"
serde = { version = "=1.0.229", features = ["derive"] }
# Not used directly. teloxide-core asks for takecell 0.1, and 0.1.2 needs
# Rust 1.96; this holds it at the release before, which builds with 1.95.
takecell = "=0.1.1"
tap = "=1.0.1"
teloxide = { version = "=0.17.0", default-features = false, features = ["macros", "rustls", "ctrlc_handler"] }
tokio = { version = "=1.54.1", features = ["full"] }
toml = "=1.1.8"
