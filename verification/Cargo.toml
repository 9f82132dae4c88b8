[package]
name = "backlightd"
version = "0.1.0"
edition = "2021"
publish = false

[dependencies]
anyhow = "=1.0.104"
chrono = "=0.4.45"
ddc-hi = { version = "=0.4.1", default-features = false }
log = "=0.4.34"
pretty_env_logger = "=0.5.0"
serde = { version = "=1.0.229", features = ["derive"] }
serde_json = "=1.0.151"
sunrise = "=3.0.0"
ureq = { version = "=2.12.1", default-features = false, features = ["json"] }
