[package]
name = "timeclock"
version = "0.1.0"
edition = "2021"
publish = false

[dependencies]
uuid = { version = "=1.27.0", features = ["v4", "serde"] }
chrono = { version = "=0.4.45", features = ["clock", "serde"] }
serde = { version = "=1.0.229", features = ["derive"] }
tokio = { version = "=1.53.2", features = ["full"] }
axum = "=0.8.9"
axum-extra = { version = "=0.12.6", features = ["cookie"] }
tower = "=0.5.3"
tower-http = { version = "=0.6.11", features = ["cors", "timeout"] }
tower-cookies = "=0.11.0"
reqwest = { version = "=0.13.5", default-features = false, features = ["json", "form"] }
aws-config = "=1.12.0"
aws-sdk-dynamodb = "=1.130.0"
aws-sdk-cognitoidentityprovider = "=1.139.0"
aws-smithy-runtime-api = "=1.19.0"
anyhow = "=1.0.104"
thiserror = "=2.0.21"
async-trait = "=0.1.92"
dotenv = "=0.15.0"
url = "=2.5.8"
