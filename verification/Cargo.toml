[package]
name = "mqtt_image_writer"
version = "0.1.0"
edition = "2021"
publish = false

[dependencies]
image = "*"
rumqttc = "*"
reqwest = { version = "*", default-features = false }
tokio = { version = "*", features = ["macros", "rt-multi-thread", "time"] }
log = "*"
env_logger = "*"
