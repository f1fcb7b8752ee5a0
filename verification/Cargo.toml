[package]
name = "mrdocument"
version = "0.1.0"
edition = "2021"
publish = false

[dependencies]
base64 = "*"
clap = { version = "*", features = ["derive"] }
dirs = "*"
env_logger = "*"
filetime = "*"
futures = "*"
log = "*"
lopdf = "*"
notify = "*"
once_cell = "*"
openai-api-rs = "*"
serde = { version = "*", features = ["derive"] }
serde_json = "*"
serde_yaml = "*"
sha2 = "*"
tempdir = "*"
thiserror = "*"
tokio = { version = "*", features = ["full"] }
tokio-stream = "*"
uuid = { version = "*", features = ["v4"] }
which = "*"
