[package]
name = "github_pr_summary"
version = "0.1.0"
edition = "2021"
publish = false

[dependencies]
tiktoken-rs = "=0.12.1"
anyhow = "=1.0.104"
tokio = { version = "=1.53.2", features = ["macros", "rt"] }
http_req = "=0.14.6"
github-flows = "=0.8.1"
openai-flows = "=0.9.1"
slack-flows = "=0.3.4"
flowsnet-platform-sdk = "=0.1.6"
serde_json = "*"
