[package]
name = "ios_lldb_dap"
version = "0.1.0"
edition = "2021"
publish = false

[dependencies]
addr2line = "*"
anyhow = "1"
clap = { version = "4", features = ["derive"] }
dunce = "1"
env_logger = "*"
gimli = "*"
object = "*"
serde = { version = "1", features = ["derive"] }
serde_json = "1"
thiserror = "*"
zed_extension_api = "*"
