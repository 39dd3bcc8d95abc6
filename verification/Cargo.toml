[package]
name = "linkclihost"
version = "0.1.0"
edition = "2021"
publish = false

[dependencies]
chrono = { version = "0.4", default-features = false, features = ["clock", "std", "serde"] }
clap = { version = "4", features = ["derive"] }
ctrlc = "3"
gethostname = "0.4"
ratatui = "0.29"
rusty_link = "0.4"
serde = { version = "1", features = ["derive"] }
serde_json = "1"
