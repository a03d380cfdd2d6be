[package]
name = "issue_tracker"
version = "0.1.0"
edition = "2021"
publish = false

[dependencies]
chrono = { version = "0.4", features = ["serde"] }
itertools = "0.10"
serde = { version = "1", features = ["derive"] }
serde_json = "1"
dotenv = "0.15"
diesel = { version = "2", features = ["postgres", "r2d2", "chrono"] }
rocket = { version = "0.5", features = ["json"] }
