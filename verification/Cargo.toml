[package]
name = "bao_tools"
version = "0.1.0"
edition = "2021"
publish = false

[dependencies]
base64 = "0.22"
crc32fast = "1"
thiserror = "2"
bytemuck = "1"
sha2 = "0.10"
ed25519-dalek = { version = "2", features = ["digest"] }
goblin = "*"
rustix = { version = "*", features = ["fs"] }
serde = { version = "1", features = ["derive"] }
serde_json = "1"
serialport = { version = "4", default-features = false }
clap = { version = "4", features = ["derive"] }
xous-semver = "*"
bao1x-api = "*"
xous-tools = "*"
