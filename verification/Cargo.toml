[package]
name = "aqa_send"
version = "0.1.0"
edition = "2021"
publish = false

[dependencies]
argon2 = { version = "=0.5.3", features = ["std"] }
urlencoding = "=2.1.3"
uuid = { version = "=1.27.0", features = ["v4"] }
hyper = { version = "0.14", features = ["server", "http1", "tcp", "stream"] }
tokio = { version = "1", features = ["full"] }
futures = "0.3"
serde = { version = "1", features = ["derive"] }
serde_json = "1"
log = "0.4"
bytes = "1"
thiserror = "1"
ctrlc = "3"
pico-args = "0.5"
console = "0.15"
