[package]
name = "scheduler"
version = "0.1.0"
edition = "2021"
publish = false

[dependencies]
anyhow = "=1.0.104"
aws-config = "=1.13.0"
aws-sdk-apprunner = "=1.118.0"
aws-sdk-autoscaling = "=1.138.0"
aws-sdk-cloudwatch = "=1.138.0"
aws-sdk-docdb = "=1.126.0"
aws-sdk-ecs = "=1.154.0"
aws-sdk-rds = "=1.157.0"
aws-sdk-redshift = "=1.126.0"
aws-sdk-resourcegroupstagging = "=1.117.0"
aws-sdk-transfer = "=1.138.0"
chrono = "=0.4.45"
tokio = { version = "=1.54.1", features = ["macros", "rt-multi-thread", "time"] }
tracing = "=0.1.44"
tracing-subscriber = { version = "=0.3.23", features = ["env-filter"] }
