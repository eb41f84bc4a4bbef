[package]
name = "mipstenite"
version = "0.1.0"
edition = "2021"
publish = false

[dependencies]
bincode = "1.3"
clap = { version = "4", features = ["derive"] }
log = "0.4"
nom = "7"
nom_locate = "4"
pretty_env_logger = "0.5"
serde = { version = "1", features = ["derive"] }
tungstenite = "0.21"
