[package]
name = "hard_waste"
version = "0.1.0"
edition = "2021"
publish = false

[dependencies]
anyhow = "*"
chrono = "*"
geojson = "*"
reqwest = "*"
scraper = "*"
serde_json = "*"
tokio = { version = "*", features = ["macros", "rt-multi-thread"] }
