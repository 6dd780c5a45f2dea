[package]
name = "agendrr"
version = "0.1.0"
edition = "2021"
publish = false

[dependencies]
regex = "*"
anyhow = "*"
chrono = "*"
clap = { version = "*", features = ["derive"] }
cli-table = "*"
confy = "*"
google-calendar3 = "*"
inquire = "*"
serde = { version = "*", features = ["derive"] }
tokio = { version = "*", features = ["rt-multi-thread", "macros"] }
xdg = "*"
