[package]
name = "spotsync"
version = "0.1.0"
edition = "2021"
publish = false

[dependencies]
anyhow = "1"
aspotify = "0.7"
chrono = "0.4"
dirs = "*"
dotenv = "0.15"
fern = "0.6"
log = "0.4"
ron = "0.6"
serde = { version = "1", features = ["derive"] }
tokio = { version = "1", features = ["macros", "rt-multi-thread", "time"] }
