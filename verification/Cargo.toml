[package]
name = "track_query"
version = "0.1.0"
edition = "2021"
publish = false

[dependencies]
gpx = "*"
serde = { version = "1", features = ["derive"] }
time = { version = "0.3", features = ["formatting", "parsing", "serde"] }
time-tz = { version = "*", features = ["system"] }
