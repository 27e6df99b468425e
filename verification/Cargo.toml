[package]
name = "kikitori"
version = "0.1.0"
edition = "2021"
publish = false

[dependencies]
serde_json = "1"
cpal = "=0.18.2"
ctrlc = "3"
futures = "0.3"
hound = "3"
sherpa-onnx = { version = "1.13.3", default-features = false, features = ["shared"] }
