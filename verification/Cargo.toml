[package]
name = "rathole-operator"
version = "0.1.0"
edition = "2021"
publish = false

[dependencies]
base64 = "0.21"
snowstorm = "0.4"
kube = { version = "0.87", default-features = false, features = ["client", "runtime", "derive", "rustls-tls"] }
k8s-openapi = { version = "0.20", features = ["v1_28"] }
schemars = "0.8"
serde = { version = "1", features = ["derive"] }
serde_json = "1"
toml = "0.8"
url = { version = "2", features = ["serde"] }
thiserror = "1"
tokio = { version = "1", features = ["full"] }
futures = "0.3"
actix-web = { version = "4", default-features = false, features = ["macros"] }
anyhow = "1"
