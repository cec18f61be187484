[package]
name = "klog"
version = "0.1.0"
edition = "2021"
publish = false

[dependencies]
anyhow = "1"
chrono = "0.4"
clap = "4"
colored = "2"
futures = "0.3"
k8s-openapi = { version = "0.21", features = ["v1_28"] }
kube = { version = "0.88", features = ["runtime"] }
tokio = { version = "1", features = ["macros", "rt-multi-thread", "sync"] }
tracing = "0.1"
tracing-subscriber = "0.3"

[dev-dependencies]
regex = "1"
