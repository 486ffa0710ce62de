[package]
name = "opentracingrust_zipkin"
version = "0.2.0"
edition = "2021"
publish = false

[dependencies]
rand = "*"
serde = "*"
serde_json = "*"
crossbeam-channel = "*"
reqwest = { version = "*", default-features = false, features = ["blocking"] }
opentracingrust = "*"
kafka = { version = "*", default-features = false }

[dev-dependencies]
thrift = "*"
