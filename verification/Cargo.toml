[package]
name = "erdos"
version = "0.1.0"
edition = "2021"
publish = false

[dependencies]
rand = "0.4"
uuid = { version = "1", features = ["v4"] }
serde = { version = "1", features = ["derive"] }
abomonation = "0.7"
abomonation_derive = "0.5"
clap = "2"
slog = "2"
slog-term = "2"
