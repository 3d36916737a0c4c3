[package]
name = "clean_dynamodb_store"
version = "0.1.0"
edition = "2021"
publish = false

[dependencies]
aws-config = "*"
aws-sdk-dynamodb = "*"
serde = "*"
serde_dynamo = { version = "*", features = ["aws-sdk-dynamodb+1"] }
tokio = { version = "*", features = ["time"] }
