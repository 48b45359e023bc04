[package]
name = "dream_tutor"
version = "0.1.0"
edition = "2021"
publish = false

[dependencies]
flate2 = "=1.1.10"
rc4 = "=0.1.0"
encoding_rs = "=0.8.42"
indexmap = "=2.14.2"
mlua = { version = "=0.10.5", features = ["luajit", "vendored"] }
axum = "=0.5.17"
axum-extra = { version = "=0.2.1", features = ["cookie"] }
async-session = "=3.0.0"
async-trait = "0.1"
base64 = "=0.13.1"
hyper = "=0.14.32"
num_enum = "=0.5.11"
serde = { version = "1", features = ["derive"] }
serde_urlencoded = "0.7"
time = { version = "0.3", features = ["std"] }
tokio = { version = "1", features = ["full"] }
tower = { version = "=0.4.13", features = ["timeout", "limit", "load-shed", "util"] }
tower-http = { version = "=0.3.5", features = ["trace"] }
tracing = "0.1"
tracing-subscriber = "0.3"

[dev-dependencies]
hex = "=0.4.3"
