[package]
name = "user_services"
version = "0.1.0"
edition = "2021"
publish = false

[dependencies]
aws-config = "0.54"
aws-sdk-dynamodb = "0.24"
aws_lambda_events = { version = "0.7", default-features = false, features = ["sqs"] }
lambda_http = "0.7"
lambda_runtime = "0.7"
serde = { version = "1", features = ["derive"] }
serde_json = "1"
tokio = { version = "1", features = ["macros"] }
tracing = { version = "0.1", features = ["log"] }
tracing-subscriber = { version = "0.3", default-features = false, features = ["fmt"] }
