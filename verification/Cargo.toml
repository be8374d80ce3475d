[package]
name = "tymnl"
version = "1.0.0"
edition = "2021"
publish = false

[dependencies]
axum = { version = "=0.8.9", default-features = false, features = ["http1", "json", "tokio", "matched-path"] }
axum-extra = { version = "=0.12.6", default-features = false, features = ["typed-header"] }
chrono = { version = "=0.4.45", default-features = false, features = ["std", "now"] }
chrono-tz = "=0.10.4"
clap = { version = "=4.6.7", default-features = false, features = ["derive", "std", "help", "usage", "error-context"] }
fontdb = { version = "=0.23.0", default-features = false, features = ["std", "fs"] }
image = { version = "=0.25.10", default-features = false }
notify-debouncer-full = { version = "=0.7.0", default-features = false }
png = "=0.17.16"
rand = "=0.10.3"
reqwest = { version = "=0.12.28", default-features = false }
serde = { version = "=1.0.229", features = ["derive"] }
serde_json = "=1.0.154"
serde_yaml = "0.9"
thiserror = "=2.0.21"
tiny-skia = { version = "=0.11.4", default-features = false, features = ["std", "png-format"] }
tokio = { version = "=1.54.1", default-features = false, features = ["rt-multi-thread", "macros", "net", "fs", "process"] }
tracing = { version = "=0.1.44", default-features = false, features = ["std"] }
tracing-subscriber = { version = "=0.3.23", default-features = false, features = ["fmt", "std", "registry", "env-filter", "local-time"] }
trmnl = { version = "=0.1.0", features = ["axum"] }
typst = "=0.14.2"
typst-assets = { version = "=0.14.2", features = ["fonts"] }
typst-render = "=0.14.2"
