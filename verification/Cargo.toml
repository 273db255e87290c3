[package]
name = "raisin"
version = "0.1.0"
edition = "2021"
publish = false

[dependencies]
clap = { version = "4", features = ["derive"] }
ethers-contract = "2"
ethers-core = "2"
ethers-middleware = "2"
ethers-providers = "2"
ethers-signers = "2"
serde_json = "1"
tokio = { version = "1", features = ["macros", "rt"] }
