[package]
name = "snowflake_me"
version = "0.1.0"
edition = "2021"
publish = false

[dependencies]
base64 = "0.22"
chrono = { version = "0.4", default-features = false, features = ["std", "now"] }
pnet_datalink = "*"
thiserror = "2"
