[package]
name = "rusty_core"
version = "0.1.0"
edition = "2021"
publish = false

[dependencies]
aes = "0.8"
cipher = "0.4"
iced-x86 = { version = "1", default-features = false, features = ["std", "decoder"] }
clap = { version = "4", features = ["derive"] }
anyhow = "1"
serde = { version = "1", features = ["derive"] }
thiserror = "1"
