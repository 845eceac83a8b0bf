[package]
name = "eclipse-core"
version = "0.1.0"
edition = "2021"
publish = false

[dependencies]
jni = "0.21"
portable-pty = "0.8"
serde_json = "1"
