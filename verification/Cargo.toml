[package]
name = "musiccast_bridge"
version = "0.1.0"
edition = "2021"
publish = false

[dependencies]
tokio = { version = "*", features = ["macros", "rt-multi-thread", "time", "signal", "sync"] }
surf = { version = "*", default-features = false, features = ["h1-client-rustls"] }
rumqttc = "*"
serde = { version = "*", features = ["derive"] }
serde_json = "*"
eyre = "*"
color-eyre = "*"
