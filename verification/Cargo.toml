[package]
name = "xiaoai_llm"
version = "0.1.0"
edition = "2021"
publish = false

[dependencies]
aes = "=0.8.4"
anyhow = "1"
api_req = "=0.5.2"
async-openai = { version = "=0.43.0", features = ["chat-completion"] }
axum = "0.8"
base64 = "=0.22.1"
bytes = "1"
cbc = { version = "=0.1.2", features = ["alloc"] }
dotenvy = "0.15"
futures-util = "0.3"
hex = "=0.4.3"
md5 = "=0.8.1"
mime_guess = "=2.0.5"
ncmc_lib = "=0.3.1"
num-bigint = "=0.4.8"
rand = "=0.10.3"
regex = "=1.13.1"
reqwest = { version = "=0.12.28", default-features = false, features = ["cookies", "json", "rustls-tls", "stream"] }
rmcp = { version = "=3.8.0", features = ["client", "server"] }
serde = { version = "1", features = ["derive"] }
serde_json = "=1.0.154"
sha1 = "=0.10.7"
tokio = { version = "1", features = ["full"] }
tower = { version = "0.5", features = ["util"] }
tower-http = { version = "0.6", features = ["fs"] }
tracing = "0.1"
tracing-subscriber = { version = "0.3", features = ["env-filter"] }
urlencoding = "=2.1.3"
walkdir = "2"
