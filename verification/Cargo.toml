[package]
name = "dataspace_fetch"
version = "0.1.0"
edition = "2021"
publish = false

[dependencies]
anyhow = "*"
aws-credential-types = "*"
aws-sdk-s3 = "*"
aws-types = "*"
clap = { version = "*", features = ["derive", "env"] }
futures = "*"
geo-types = "*"
geojson = "*"
glob = "=0.3.4"
reqwest = { version = "=0.13.5", default-features = false, features = ["json", "query"] }
serde = { version = "*", features = ["derive"] }
serde_json = "*"
tokio = { version = "*", features = ["macros", "rt-multi-thread", "fs", "io-util"] }
tracing = "*"
tracing-subscriber = "*"
wkt = "*"
