[package]
name = "update_server"
version = "0.1.0"
edition = "2021"
publish = false

[dependencies]
hex = "0.4"
hmac-sha512 = "*"
mar = "*"
actix-web = "4"
actix-files = "*"
clap = { version = "4", features = ["derive"] }
flexi_logger = "*"
log = "*"
