[package]
name = "pdf_agent"
version = "0.1.0"
edition = "2021"
publish = false

[dependencies]
similar = "=2.7.0"
serde = { version = "1", features = ["derive"] }
serde_json = "1"
thiserror = "1"
tokio = { version = "1", features = ["rt-multi-thread", "macros", "sync", "time", "fs"] }
clap = { version = "4", features = ["derive"] }
async-trait = "0.1"
async-stream = "0.3"
opener = "0.7"
iced = { version = "0.12", default-features = false, features = ["tokio", "advanced"] }
