[package]
name = "helm_cleaner"
version = "0.1.0"
edition = "2021"
publish = false

[dependencies]
anyhow = "*"
clap = { version = "*", features = ["derive"] }
clap_complete = "*"
dialoguer = "*"
k8s-openapi = { version = "*", features = ["latest"] }
kube = "*"
tokio = { version = "*", features = ["macros", "rt-multi-thread"] }
