[package]
name = "agent_core"
version = "0.1.0"
edition = "2021"
publish = false

[dependencies]
tokio = { version = "=1.53.2", features = ["sync", "rt-multi-thread", "macros"] }
url = "=2.5.8"
reqwest = { version = "=0.13.5", default-features = false }
mini-rag = "=0.2.3"
async-trait = "=0.1.92"
anyhow = "*"
