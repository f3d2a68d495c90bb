[package]
name = "diffcore"
version = "0.1.0"
edition = "2021"
publish = false

[dependencies]
git2 = { version = "*", default-features = false }
chrono = "*"
url = "*"
notify = "*"
notify-debouncer-mini = "*"
serde = { version = "*", features = ["derive"] }
serde_json = "*"
