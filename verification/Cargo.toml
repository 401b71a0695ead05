[package]
name = "multiplayer_cards"
version = "0.1.0"
edition = "2021"
publish = false

[dependencies]
rand = "0.9"
uuid = { version = "1", features = ["v4"] }
serde = { version = "1", features = ["derive"] }
serde_json = "1"
jsonwebtoken = "*"
tokio = { version = "1", features = ["macros", "rt"] }
lambda_http = "*"
lambda_runtime = "*"
aws-config = "*"
aws-sdk-dynamodb = "*"
aws-sdk-apigatewaymanagement = "*"
aws_lambda_events = "*"
