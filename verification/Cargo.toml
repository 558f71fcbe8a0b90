[package]
name = "dark_crawler"
version = "0.1.0"
edition = "2021"
publish = false

[dependencies]
scraper = "*"
reqwest = { version = "*", default-features = false, features = ["blocking"] }
crossbeam = "*"
colored = "*"
