[package]
name = "organizer"
version = "0.1.0"
edition = "2021"
publish = false

[dependencies]
chrono = "0.4"
clap = { version = "4", features = ["derive"] }
futures = "0.3"
tokio = { version = "1", features = ["fs", "macros", "rt"] }
