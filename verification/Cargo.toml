[package]
name = "bookbind"
version = "0.1.0"
edition = "2021"
publish = false

[dependencies]
zip = "*"
chrono = "*"
mime_guess = "*"
tokio = { version = "*", features = ["rt-multi-thread", "macros"] }
dotenvy = "*"
aws-config = "*"
aws-sdk-s3 = "*"
aws-credential-types = "*"
