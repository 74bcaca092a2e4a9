[package]
name = "punic"
version = "0.1.0"
edition = "2021"
publish = false

[dependencies]
clap = "=2.34.0"
dirs = "=4.0.0"
futures = "=0.3.34"
rusoto_core = { version = "=0.48.0", default-features = false, features = ["rustls"] }
rusoto_s3 = { version = "=0.48.0", default-features = false, features = ["rustls"] }
serde = "=1.0.229"
serde_yaml = "=0.8.26"
shellexpand = "=2.1.2"
tokio = { version = "=1.54.1", features = ["full"] }
walkdir = "=2.5.0"
zip = { version = "=0.5.13", default-features = false, features = ["deflate"] }
