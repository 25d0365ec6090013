[package]
name = "weave_writer"
version = "0.1.0"
edition = "2021"
publish = false

[dependencies]
derivative = "2"
derive_more = "0.99"
egui = "0.27"
egui_commonmark = { version = "0.16", default-features = false, features = ["pulldown_cmark"] }
egui_file = "0.17"
env_logger = "0.11"
futures = "0.3"
keyring = "2"
log = "0.4"
openai-rust = "1"
serde = { version = "1", features = ["derive"] }
serde_json = "1"
static_assertions = "1"
thiserror = "1"
tokio = { version = "1", features = ["rt-multi-thread"] }
uuid = { version = "1", features = ["v4"] }
