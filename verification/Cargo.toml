[package]
name = "solite"
version = "0.1.0"
edition = "2021"
publish = false

[dependencies]
accesskit = "=0.17.1"
blitz-dom = { version = "=0.2.4", default-features = false, features = ["accessibility"] }
blitz-traits = "=0.2.0"
image = { version = "=0.25.6", default-features = false, features = ["png"] }
notify = "=8.2.1"
parley = "=0.6.0"
peniko = "=0.6.1"
serde_json = "=1.0.154"
stylo = "=0.8.0"
stylo_dom = "=0.8.0"
tokio = { version = "=1.54.1", default-features = false, features = ["sync"] }
url = "=2.5.8"
wgpu = { version = "=29.0.4", default-features = false, features = ["std", "vulkan", "wgsl"] }
