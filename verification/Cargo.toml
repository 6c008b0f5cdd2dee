[package]
name = "trainer"
version = "0.1.0"
edition = "2021"
publish = false

[dependencies]
color_processing = "*"
rand = "0.8"
rand_chacha = "0.3"
wgpu = "0.20"
tokio = { version = "1", features = ["macros", "rt-multi-thread"] }
futures = "0.3"
futures-channel = "0.3"
bytemuck = { version = "1", features = ["derive"] }
serde = { version = "1", features = ["derive"] }
serde_json = "1"
crossterm = "*"
