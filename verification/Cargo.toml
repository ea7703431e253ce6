[package]
name = "event_ratings"
version = "0.1.0"
edition = "2021"
publish = false

[dependencies]
regex = "*"
scraper = "*"
reqwest = { version = "0.12", default-features = false, features = ["blocking", "rustls-tls"] }
scoped_threadpool = "*"
prettytable-rs = "*"
