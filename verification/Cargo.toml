[package]
name = "forecast_training"
version = "0.1.0"
edition = "2021"
publish = false

[dependencies]
rand = "=0.8.5"
sha2 = "=0.10.9"
smartcore = { version = "=0.2.1", features = ["serde"] }
ta = "=0.5.0"
bincode = "=1.3.3"
serde = { version = "1", features = ["derive"] }
envy = "=0.4.2"
env_logger = "=0.10.2"
log = "=0.4.34"
mysql = "=24.0.0"
chrono = "=0.4.45"
job_scheduler = "=1.2.1"
