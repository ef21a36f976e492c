[package]
name = "opendut"
version = "0.1.0"
edition = "2021"
publish = false

[dependencies]
netlink-packet-utils = "0.5"
netlink-packet-route = "0.19"
rtnetlink = "0.14"
uuid = "1"
thiserror = "1"
clap = { version = "4", features = ["derive"] }
anyhow = "1"
tokio = { version = "1", features = ["full"] }
futures = "0.3"
redb = "2"
serde = { version = "1", features = ["derive"] }
serde_json = "1"
diesel = { version = "2", features = ["postgres_backend", "uuid"] }
diesel-async = { version = "0.5", features = ["postgres", "async-connection-wrapper"] }
diesel_migrations = "2"
backon = "1"
url = "2"
tracing = "0.1"
