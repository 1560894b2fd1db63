[package]
name = "cloudguard"
version = "0.1.0"
edition = "2021"
publish = false

[dependencies]
aws-config = "*"
aws-sdk-s3 = "*"
clap = { version = "*", features = ["derive"] }
dotenv = "*"
tokio = { version = "*", features = ["macros", "rt-multi-thread", "fs", "io-util"] }
