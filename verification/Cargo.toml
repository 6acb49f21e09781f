[package]
name = "giveaway_core"
version = "0.1.0"
edition = "2021"
publish = false

[dependencies]
chrono = "=0.4.45"
colored = "=3.1.1"
dotenv = "=0.15.0"
fern = "=0.7.1"
log = "=0.4.34"
redis = "=1.7.1"
serde = { version = "=1.0.229", features = ["derive"] }
serde_json = "=1.0.151"
thiserror = "=2.0.21"
uuid = { version = "=1.27.0", features = ["v4"] }
