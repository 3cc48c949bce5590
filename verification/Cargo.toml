[package]
name = "mlc_core"
version = "0.1.0"
edition = "2021"
publish = false

[dependencies]
bson = { version = "=3.1.0", features = ["serde"] }
chrono = { version = "=0.4.45", features = ["serde"] }
directories = "=6.0.0"
futures = "=0.3.34"
json5 = "=1.3.1"
remoc = "=0.20.4"
sacn = "=0.11.1"
serde = { version = "=1.0.229", features = ["derive"] }
serde_json = "=1.0.151"
tokio = { version = "=1.53.2", features = ["full"] }
uuid = { version = "=1.27.0", features = ["v4", "serde"] }
