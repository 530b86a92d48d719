[package]
name = "lava_relay"
version = "0.1.0"
edition = "2021"
publish = false

[dependencies]
hex = "=0.4.3"
k256 = "=0.13.4"
ripemd = "=0.2.0"
sha2 = "=0.11.0"
subtle-encoding = { version = "=0.5.1", features = ["bech32-preview"] }
uuid = { version = "=1.27.0", features = ["v4"] }
tokio = { version = "*", features = ["rt-multi-thread", "macros", "sync", "time", "net"] }
axum = "=0.8.9"
reqwest = { version = "=0.13.5", default-features = false, features = ["json"] }
serde = { version = "*", features = ["derive"] }
serde_json = "*"
structopt = "=0.3.26"
tonic = "=0.14.6"
prost = "=0.14.4"
futures = "=0.3.34"
