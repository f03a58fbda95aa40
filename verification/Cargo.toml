[package]
name = "tlparse_vllm"
version = "0.1.0"
edition = "2021"
publish = false

[dependencies]
anyhow = "1"
clap = { version = "4", features = ["derive"] }
html-escape = "0.2"
indexmap = "2"
opener = "*"
serde = { version = "1", features = ["derive"] }
serde_json = "1"
similar = "2"
tiny_http = "0.12"
tinytemplate = "1.2"
