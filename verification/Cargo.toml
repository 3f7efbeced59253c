[package]
name = "gaia_sensor_logger"
version = "0.1.0"
edition = "2021"
publish = false

[dependencies]
chrono = "0.4"
dotenvy = "0.15"
mongodb = "3"
rocket = { version = "0.5", features = ["json"] }
rumqttc = "0.24"
serde = { version = "1", features = ["derive"] }
sqlx = { version = "0.8", default-features = false, features = ["runtime-tokio", "postgres", "chrono", "derive"] }
tokio = { version = "1", features = ["rt-multi-thread", "macros", "sync"] }
