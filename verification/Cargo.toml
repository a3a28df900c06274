[package]
name = "color_service"
version = "0.1.0"
edition = "2021"
publish = false

[dependencies]
image = { version = "=0.25.10", default-features = false, features = ["png"] }
bytes = "=1.12.1"
serde = { version = "=1.0.229", features = ["derive"] }
serde_json = "=1.0.151"
tokio = { version = "=1.53.2", features = ["full"] }
warp = { version = "=0.4.3", features = ["server"] }
aws-config = "=1.12.0"
aws-sdk-s3 = "=1.152.0"
aws-sdk-dynamodb = "=1.130.0"
lambda_runtime = "=1.4.0"
mysql = { version = "=28.0.3", default-features = false }
