[package]
name = "smugdancer"
version = "0.1.0"
edition = "2021"
publish = false

[dependencies]
axum = "0.6"
clap = { version = "4", features = ["derive"] }
dashmap = "5"
gif = "0.12"
handlebars = "4"
image = { version = "0.24", default-features = false, features = ["png"] }
nanorand = "0.7"
parking_lot = "0.12"
pbr = "1"
rayon = "1"
rusqlite = { version = "0.28", features = ["bundled"] }
serde = { version = "1", features = ["derive"] }
thiserror = "1"
tokio = { version = "1", features = ["full"] }
toml = "0.5"
tracing = "0.1"
tracing-subscriber = "0.3"
