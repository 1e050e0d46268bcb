[package]
name = "burn_relay"
version = "0.1.0"
edition = "2021"
publish = false

[dependencies]
aes-gcm = "0.10"
getrandom = "0.2"
actix-web = { version = "4", default-features = false, features = ["macros"] }
diesel = { version = "2", features = ["postgres", "r2d2"] }
dotenv = "0.15"
env_logger = "0.10"
log = "0.4"
serde = { version = "1", features = ["derive"] }
