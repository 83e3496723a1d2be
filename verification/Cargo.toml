[package]
name = "vector_core"
version = "0.1.0"
edition = "2021"
publish = false

[dependencies]
bytes = "1"
chrono = { version = "0.4", default-features = false, features = ["alloc", "clock", "std"] }
enumflags2 = "0.7"
futures = { version = "0.3", default-features = false, features = ["std"] }
mlua = { version = "*", features = ["lua54", "vendored"] }
opentelemetry-proto = { version = "0.27", default-features = false, features = ["gen-tonic-messages", "logs", "metrics", "trace"] }
ordered-float = "4"
prost = "0.13"
prost-types = "0.13"
serde = { version = "1", features = ["derive"] }
serde_json = "1"
tracing = "0.1"
uuid = "1"
vrl = { version = "*", default-features = false, features = ["value", "path"] }
