[package]
name = "bluetooth_tool"
version = "0.1.0"
edition = "2021"
publish = false

[dependencies]
async-trait = "0.1"
bytemuck = { version = "1", features = ["derive"] }
fern = { version = "0.7", features = ["colored"] }
futures = "0.3"
log = "0.4"
serde = { version = "1", features = ["derive"] }
serde_json = "1"
tokio = { version = "1", features = ["sync", "time"] }
uuid = "1"
