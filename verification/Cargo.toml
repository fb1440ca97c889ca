[package]
name = "capture_pipeline"
version = "0.1.0"
edition = "2021"
publish = false

[dependencies]
serde_json = "=1.0.151"
base64 = "=0.23.1"
image = { version = "=0.25.10", default-features = false, features = ["jpeg", "png"] }
tokio = { version = "=1.53.2", default-features = false, features = ["rt-multi-thread", "macros", "time"] }
reqwest = { version = "=0.13.5", default-features = false, features = ["json"] }
aws-config = { version = "=1.12.0", default-features = false }
aws-credential-types = "=1.3.0"
aws-sdk-s3 = { version = "=1.152.0", default-features = false }
deadpool-postgres = "=0.14.2"
tokio-postgres = { version = "=0.7.18", features = ["with-uuid-1", "with-chrono-0_4", "with-serde_json-1"] }
chrono = "=0.4.45"
uuid = { version = "=1.27.0", features = ["v4"] }
dotenvy = "=0.15.7"
log = "=0.4.34"
