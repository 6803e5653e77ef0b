[package]
name = "soldoc"
version = "0.1.0"
edition = "2021"
publish = false

[dependencies]
globset = "=0.4.20"
clap = { version = "=4.6.7", features = ["derive"] }
serde = { version = "=1.0.229", features = ["derive"] }
serde_json = "=1.0.151"
eyre = "=0.6.14"
ethers-core = "=2.0.14"
