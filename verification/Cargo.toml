[package]
name = "diskuto"
version = "0.1.0"
edition = "2021"
publish = false

[dependencies]
actix-web = { version = "=4.18.1", default-features = false, features = ["macros"] }
anyhow = "=1.0.104"
blocking = "=1.7.0"
bs58 = "=0.5.1"
clap = { version = "=4.6.7", features = ["derive"] }
env_logger = "=0.11.11"
futures = "=0.3.34"
identicon = "=0.2.1"
image = { version = "=0.23.14", default-features = false, features = ["png"] }
log = "=0.4.34"
protobuf = "=3.7.2"
r2d2 = "=0.8.10"
r2d2_sqlite = { version = "=0.35.0", features = ["bundled"] }
rusqlite = { version = "=0.40.2", features = ["bundled", "blob"] }
serde = { version = "=1.0.229", features = ["derive"] }
socket2 = "=0.6.5"
sodiumoxide = "=0.2.7"
tablestream = "=0.1.4"
webbrowser = "=1.2.5"
