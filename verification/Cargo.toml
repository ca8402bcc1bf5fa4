[package]
name = "namer"
version = "0.1.0"
edition = "2021"
publish = false

[dependencies]
actix-files = "0.6"
actix-web = { version = "4", default-features = false, features = ["macros"] }
compact_str = "*"
futures = "0.3"
k8s-openapi = { version = "0.17", features = ["v1_26"] }
kube = { version = "0.78", default-features = false, features = ["client", "openssl-tls"] }
thiserror = "*"
tikv-jemallocator = "*"
tracing-subscriber = { version = "0.3", features = ["env-filter"] }
