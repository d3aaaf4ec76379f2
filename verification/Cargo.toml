[package]
name = "git-remote-k8s"
version = "0.1.0"
edition = "2021"
publish = false

[dependencies]
anyhow = "1"
clap = { version = "4", features = ["derive", "env"] }
futures = "0.3"
k8s-openapi = { version = "0.20", features = ["v1_28"] }
kube = { version = "0.87", features = ["ws"] }
thiserror = "1"
tokio = { version = "1", features = ["full"] }
tokio-util = { version = "0.7", features = ["io"] }
tracing = "0.1"
tracing-subscriber = "0.3"

[dev-dependencies]
regex = "1"
