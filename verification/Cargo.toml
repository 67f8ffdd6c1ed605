[package]
name = "http_front"
version = "0.1.0"
edition = "2021"
publish = false

[dependencies]
chrono = "=0.4.45"
http = "=0.1.21"
tokio = "=0.1.22"
tower-web = "=0.3.7"
