[package]
name = "canvas"
version = "0.1.0"
edition = "2021"
publish = false

[dependencies]
anyhow = "=1.0.104"
chrono = "=0.4.45"
clap = { version = "=4.6.7", features = ["derive"] }
filetime = "=0.2.29"
futures = "=0.3.34"
indicatif = "=0.18.6"
m3u8-rs = "=6.0.1"
parse_link_header = "=0.4.1"
rand = "=0.10.3"
reqwest = { version = "=0.13.5", default-features = false, features = ["cookies", "form", "json"] }
sanitize-filename = "=0.6.0"
select = "=0.6.1"
serde = { version = "=1.0.229", features = ["derive"] }
serde_json = "=1.0.151"
termsize = "=0.1.9"
tokio = { version = "=1.53.2", features = ["full"] }
