[package]
name = "kube_fake_client"
version = "0.1.0"
edition = "2021"
publish = false

[dependencies]
urlencoding = "*"
uuid = { version = "*", features = ["v4"] }
chrono = "*"
serde_json = "*"
jsonschema = "*"
serde = { version = "*", features = ["derive"] }
serde_yaml = "*"
kube = { version = "*", default-features = false, features = ["client"] }
k8s-openapi = { version = "*", features = ["latest"] }
tower = "*"
http = "*"
http-body-util = "*"
bytes = "*"
futures = "*"
thiserror = "*"
