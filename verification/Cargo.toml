[package]
name = "greentic_operator"
version = "0.1.0"
edition = "2021"
publish = false

[dependencies]
anyhow = "=1.0.104"
serde = { version = "1", features = ["derive"] }
serde_json = "=1.0.154"
serde_yaml_bw = "=2.5.8"
ulid = "=1.2.1"
uuid = { version = "1", features = ["v4"] }
zip = { version = "=9.2.2", default-features = false, features = ["deflate"] }
jsonschema = { version = "=0.60.2", default-features = false }
hyper = { version = "1", features = ["http1", "server"] }
http-body-util = "0.1"
tokio = { version = "1", features = ["rt", "macros"] }
tracing = "0.1"
greentic-deploy-spec = "*"
qa-spec = "*"

[dev-dependencies]
tempfile = "3"
