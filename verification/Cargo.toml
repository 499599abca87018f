[package]
name = "relational_db"
version = "0.1.0"
edition = "2021"
publish = false

[dependencies]
dashmap = "5.5.3"
bincode = "1.3.3"
num-bigint = { version = "0.4", features = ["serde"] }
serde = { version = "1", features = ["derive"] }
sqlparser = "0.6"
native-tls = "0.2"
log = "0.4"
thiserror = "1"
futures-lite = "1"
async-mutex = "1"
blocking = "1"
