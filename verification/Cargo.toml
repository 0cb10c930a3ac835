[package]
name = "zher_transfer"
version = "0.1.0"
edition = "2021"
publish = false

[dependencies]
url = "2"
tokio = { version = "1", features = ["sync", "rt", "rt-multi-thread", "fs", "io-util", "macros", "time"] }
reqwest = { version = "0.12", default-features = false, features = ["stream"] }
futures-util = "0.3"
serde = { version = "1", features = ["derive"] }
serde_json = "1"
local-ip-address = "0.6"
log = "0.4"
jni = "0.21"
ndk-context = "0.1"
