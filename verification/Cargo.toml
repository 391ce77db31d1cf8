[package]
name = "mcp_core"
version = "0.1.0"
edition = "2021"
publish = false

[dependencies]
aes-gcm = "=0.11.1"
base64 = "=0.23.1"
sha2 = "=0.11.0"
dirs = "=7.0.0"
gethostname = "=1.1.0"
serde_json = "=1.0.151"
reqwest = { version = "=0.13.5", default-features = false, features = ["json"] }
async-openai = { version = "=0.42.1", features = ["chat-completion"] }
futures = "=0.3.34"
tokio = { version = "=1.53.2", features = ["rt", "macros"] }
anyhow = "=1.0.104"
