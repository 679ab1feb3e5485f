[package]
name = "namespace_projects"
version = "0.1.0"
edition = "2021"
publish = false

[dependencies]
regex = "=1.13.1"
serde = { version = "=1.0.229", features = ["derive"] }
serde_json = "=1.0.154"
slog = "=2.8.2"
lazy_static = "=1.5.1"
kubewarden-policy-sdk = "=0.17.3"
k8s-openapi = { version = "=0.28.0", default-features = false, features = ["v1_36"] }
