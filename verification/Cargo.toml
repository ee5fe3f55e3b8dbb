[package]
name = "fullstack_demo"
version = "0.1.0"
edition = "2021"
publish = false

[dependencies]
serde = { version = "=1.0.229", features = ["derive"] }
serde_json = "=1.0.154"
redis = "=0.20.2"
r2d2 = "=0.8.10"
r2d2_redis = "=0.14.0"
rocket = { version = "=0.5.2", features = ["json"] }
yew = { version = "=0.21.0", features = ["csr"] }
gloo-net = "=0.7.0"
web-sys = { version = "=0.3.106", features = ["HtmlInputElement"] }
