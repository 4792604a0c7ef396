[package]
name = "swtchr"
version = "0.1.0"
edition = "2021"
publish = false

[dependencies]
anyhow = "1"
clap = { version = "4", features = ["derive"] }
evdev = { version = "0.13", features = ["tokio"] }
serde = { version = "1", features = ["derive"] }
thiserror = "2"
tokio = { version = "1", features = ["full"] }
toml = "0.8"
tracing = "0.1"
tracing-subscriber = { version = "0.3", features = ["env-filter"] }
xkbcommon = { version = "0.8", default-features = false }

[dev-dependencies]
tempfile = "3"
