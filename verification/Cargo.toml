[package]
name = "redis_json"
version = "0.1.0"
edition = "2021"
publish = false

[dependencies]
bson = "=2.15.0"
ijson = "=0.1.3"
redis-module = "2"
serde = { version = "1", features = ["derive"] }
serde_json = { version = "1", features = ["unbounded_depth"] }
