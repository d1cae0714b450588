[package]
name = "rifimporter"
version = "0.1.0"
edition = "2021"
publish = false

[dependencies]
oxrdf = "0.3"
