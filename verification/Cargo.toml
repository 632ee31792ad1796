[package]
name = "qbcli"
version = "0.1.0"
edition = "2021"
publish = false

[dependencies]
actix-web = { version = "=4.18.1", default-features = false, features = ["macros", "rustls-0_23"] }
anyhow = "1"
base64 = "=0.22.1"
clap = { version = "=4.6.7", features = ["derive"] }
directories = "=6.0.0"
dotenvy = "0.15"
oo7 = "=0.6.0"
opener = "=0.9.0"
openid = { version = "=0.25.0", default-features = false, features = ["rustls"] }
rand = "=0.9.5"
reqwest = { version = "=0.13.5", default-features = false, features = ["json", "rustls"] }
rustls = "0.23"
rustls-pki-types = "1"
serde = { version = "1", features = ["derive"] }
serde_json = "1"
tokio = { version = "1", features = ["full"] }
tokio-util = "0.7"
toml = "=1.1.8"
tracing = "0.1"
tracing-subscriber = { version = "0.3", features = ["env-filter"] }
url = "=2.5.8"
