[package]
name = "trip_maker"
version = "0.1.0"
edition = "2021"
publish = false

[dependencies]
longitude = "*"
rand = "*"
clap = { version = "*", features = ["derive", "env"] }
dotenvy = "*"
reqwest = { version = "*", default-features = false, features = ["blocking", "json"] }
serde = { version = "*", features = ["derive"] }
serde_json = "*"
serde_url_params = "*"
url = "*"
