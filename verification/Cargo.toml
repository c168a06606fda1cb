[package]
name = "montrade"
version = "0.1.0"
edition = "2021"
publish = false

[dependencies]
anyhow = "=1.0.104"
dotenvy = "=0.15.7"
ethers = { version = "=2.0.14", default-features = false }
tokio = { version = "=1.53.2", features = ["macros", "rt-multi-thread", "time"] }
