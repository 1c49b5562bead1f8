[package]
name = "tpt_ai_agents"
version = "0.1.0"
edition = "2021"
publish = false

[dependencies]
serde = { version = "=1.0.229", features = ["derive"] }
serde_json = "=1.0.154"
tokio = { version = "=1.54.1", features = ["rt-multi-thread", "macros", "net", "io-util", "time", "sync"] }
reqwest = { version = "=0.12.28", default-features = false, features = ["json", "stream"] }
futures = "=0.3.34"
bytes = "=1.12.1"
async-trait = "=0.1.92"
tract-onnx = "=0.21.19"
kstring = "=2.0.2"
