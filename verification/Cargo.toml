[package]
name = "calconv"
version = "0.1.0"
edition = "2021"
publish = false

[dependencies]
actix-web = { version = "4", default-features = false, features = ["macros"] }
awc = { version = "3", default-features = false }
clap = { version = "3", features = ["derive"] }
env_logger = "0.10"
ical = "*"
ics = "*"
log = "0.4"
serde = { version = "1", features = ["derive"] }
thiserror = "1"
uuid = { version = "1", features = ["v5"] }
