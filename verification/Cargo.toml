[package]
name = "person_extract"
version = "0.1.0"
edition = "2021"
publish = false

[dependencies]
regex = "1"
serde = { version = "1", features = ["derive"] }
serde_json = "1"
clap = { version = "4", features = ["derive"] }
walkdir = "2"
leptos = { version = "0.8", features = ["csr"] }
leptos_router = "0.8"
gloo-net = { version = "0.6", features = ["http"] }
